use vstd::prelude::*;
use vstd::string::{StrSliceExecFns, StringExecFns};

verus! {

/// The port a STUN server listens on unless its address says otherwise.
pub open spec fn stun_default_port_suffix() -> Seq<char> {
    seq![':', '3', '4', '7', '8']
}

/// A STUN server address as it is used: unchanged when it holds a `:`, else with the
/// default port `:3478` appended.
pub open spec fn stun_server_addr(s: Seq<char>) -> Seq<char> {
    if s.contains(':') {
        s
    } else {
        s + stun_default_port_suffix()
    }
}

/// A STUN server address as used always names a port: it keeps an address that has one and
/// otherwise appends `:3478`, leaving what was there as its start.
pub proof fn law_stun_server_addr(s: Seq<char>)
    ensures
        stun_server_addr(s).contains(':'),
        s.contains(':') ==> stun_server_addr(s) == s,
        !s.contains(':') ==> stun_server_addr(s).len() == s.len() + 5 && stun_server_addr(
            s,
        ).subrange(0, s.len() as int) == s && stun_server_addr(s)[s.len() as int] == ':'
            && stun_server_addr(s)[s.len() + 1 as int] == '3' && stun_server_addr(s)[s.len() + 2 as int] == '4'
            && stun_server_addr(s)[s.len() + 3 as int] == '7' && stun_server_addr(s)[s.len() + 4 as int] == '8',
{
    if !s.contains(':') {
        let r = stun_server_addr(s);
        assert(r[s.len() as int] == ':');
        assert(r.contains(':'));
        assert(r.subrange(0, s.len() as int) =~= s);
    }
}

fn contains_colon(s: &str) -> (r: bool)
    ensures
        r == s@.contains(':'),
{
    let n = s.unicode_len();
    let mut i: usize = 0;
    while i < n
        invariant
            n == s@.len(),
            i <= n,
            forall|j: int| 0 <= j < i ==> s@[j] != ':',
        decreases n - i,
    {
        if s.get_char(i) == ':' {
            assert(s@[i as int] == ':');
            return true;
        }
        i = i + 1;
    }
    false
}

/// `server` with the default STUN port appended when it names none; see [`stun_server_addr`].
pub fn stun_server_with_port(server: String) -> (r: String)
    ensures
        r@ == stun_server_addr(server@),
{
    let mut x = server;
    if !contains_colon(x.as_str()) {
        let suffix = ":3478";
        proof {
            reveal_strlit(":3478");
        }
        x.append(suffix);
        assert(x@ =~= server@ + stun_default_port_suffix());
    }
    x
}

/// Each of `servers` with the default STUN port appended where it names none, in order.
pub fn stun_servers_with_port(servers: Vec<String>) -> (r: Vec<String>)
    ensures
        r@.len() == servers@.len(),
        forall|i: int| 0 <= i < servers@.len() ==> #[trigger] r@[i]@ == stun_server_addr(servers@[i]@),
{
    let ghost all = servers@;
    let n = servers.len();
    let mut rest = servers;
    let mut out: Vec<String> = Vec::new();
    let mut k: usize = 0;
    while k < n
        invariant
            n == all.len(),
            k <= n,
            rest@ == all.subrange(k as int, n as int),
            out@.len() == k,
            forall|i: int| 0 <= i < k ==> #[trigger] out@[i]@ == stun_server_addr(all[i]@),
        decreases n - k,
    {
        let x = rest.remove(0);
        assert(x == all[k as int]);
        out.push(stun_server_with_port(x));
        k = k + 1;
        assert(rest@ =~= all.subrange(k as int, n as int));
    }
    out
}

} // verus!
