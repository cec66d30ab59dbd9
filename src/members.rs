//! The static membership directory: node name to host, and the address and
//! quorum views derived from it.

use vstd::prelude::*;
use vstd::string::{StrSliceExecFns, StringExecFns};

verus! {

/// The digit character of `d`, for `d < 10`.
pub open spec fn digit_char(d: nat) -> char {
    seq!['0', '1', '2', '3', '4', '5', '6', '7', '8', '9'][d as int]
}

/// The decimal text of `n`, without sign or padding.
pub open spec fn decimal(n: nat) -> Seq<char>
    decreases n,
{
    if n < 10 {
        seq![digit_char(n)]
    } else {
        decimal(n / 10).push(digit_char(n % 10))
    }
}

/// `host:port`, the port written in decimal.
pub open spec fn address(host: Seq<char>, port: u16) -> Seq<char> {
    host + seq![':'] + decimal(port as nat)
}

/// The view of a member list: each entry as (name, host) character sequences.
pub open spec fn entries_view(v: Seq<(String, String)>) -> Seq<(Seq<char>, Seq<char>)> {
    v.map_values(|e: (String, String)| (e.0@, e.1@))
}

/// No two entries share a name.
pub open spec fn names_unique(m: Seq<(Seq<char>, Seq<char>)>) -> bool {
    forall|i: int, j: int|
        0 <= i < m.len() && 0 <= j < m.len() && i != j ==> #[trigger] m[i].0 != #[trigger] m[j].0
}

/// Each entry of `m` appears in `r` at the same place, its host turned into
/// `host:port`.
pub open spec fn with_port(
    m: Seq<(Seq<char>, Seq<char>)>,
    r: Seq<(Seq<char>, Seq<char>)>,
    port: u16,
) -> bool {
    &&& r.len() == m.len()
    &&& forall|i: int|
        0 <= i < m.len() ==> (#[trigger] r[i]).0 == m[i].0 && r[i].1 == address(m[i].1, port)
}

/// Why a member configuration was refused.
#[derive(Debug, Clone, Copy, PartialEq, Eq, Structural)]
pub enum MemberConfigError {
    /// The directory has no member.
    Empty,
    /// A member has an empty host.
    EmptyHost,
    /// Two members share a name.
    DuplicateName,
}

/// Member config: node name to host, and the two ports that addresses use.
#[derive(Debug, Clone)]
pub struct MemberConfig {
    /// Nodes hosts, `[pod_name] -> [pod_host]`; names are unique.
    pub members: Vec<(String, String)>,
    /// The xline server port
    pub xline_port: u16,
    /// The sidecar web server port
    pub sidecar_port: u16,
}

/// Append the decimal text of `n` to `out`.
fn append_decimal(out: &mut String, n: u16)
    ensures
        final(out)@ == old(out)@ + decimal(n as nat),
    decreases n,
{
    if n >= 10 {
        append_decimal(out, n / 10);
    }
    let d = (n % 10) as usize;
    let digits = "0123456789";
    proof {
        reveal_strlit("0123456789");
    }
    let text = digits.substring_char(d, d + 1);
    assert(text@ =~= seq![digit_char(d as nat)]);
    out.append(text);
    assert(decimal(n as nat) == if n < 10 {
        seq![digit_char(n as nat)]
    } else {
        decimal((n / 10) as nat).push(digit_char((n % 10) as nat))
    });
}

/// `host:port`, the port written in decimal.
fn host_port(host: &str, port: u16) -> (r: String)
    ensures
        r@ == address(host@, port),
{
    let mut r = String::from_str(host);
    proof {
        reveal_strlit(":");
    }
    r.append(":");
    append_decimal(&mut r, port);
    r
}

impl MemberConfig {
    /// The members as (name, host) character sequences.
    pub open spec fn entries(&self) -> Seq<(Seq<char>, Seq<char>)> {
        entries_view(self.members@)
    }

    /// A usable directory: non-empty, names unique, every host non-empty.
    pub open spec fn wf(&self) -> bool {
        &&& self.members@.len() > 0
        &&& names_unique(self.entries())
        &&& forall|i: int| 0 <= i < self.members@.len() ==> (#[trigger] self.entries()[i]).1.len() > 0
    }

    /// Build a directory, refusing an empty one, an empty host and a repeated
    /// name.
    pub fn new(members: Vec<(String, String)>, xline_port: u16, sidecar_port: u16) -> (r: Result<
        MemberConfig,
        MemberConfigError,
    >)
        ensures
            r is Err && r->Err_0 == MemberConfigError::Empty <==> members@.len() == 0,
            r is Err && r->Err_0 == MemberConfigError::EmptyHost <==> members@.len() > 0 && exists|
                i: int,
            | 0 <= i < members@.len() && (#[trigger] entries_view(members@)[i]).1.len() == 0,
            r is Err && r->Err_0 == MemberConfigError::DuplicateName <==> members@.len() > 0
                && (forall|i: int|
                0 <= i < members@.len() ==> (#[trigger] entries_view(members@)[i]).1.len() > 0)
                && !names_unique(entries_view(members@)),
            r matches Ok(c) ==> c.wf() && c.members@ == members@ && c.xline_port == xline_port
                && c.sidecar_port == sidecar_port,
    {
        let n = members.len();
        if n == 0 {
            return Err(MemberConfigError::Empty);
        }
        let ghost m = entries_view(members@);
        let mut i: usize = 0;
        while i < n
            invariant
                n == members@.len(),
                m == entries_view(members@),
                i <= n,
                forall|k: int| 0 <= k < i ==> (#[trigger] m[k]).1.len() > 0,
            decreases n - i,
        {
            if members[i].1.as_str().unicode_len() == 0 {
                assert(m[i as int].1.len() == 0);
                return Err(MemberConfigError::EmptyHost);
            }
            i = i + 1;
        }
        let mut i: usize = 0;
        while i < n
            invariant
                n == members@.len(),
                m == entries_view(members@),
                i <= n,
                forall|k: int| 0 <= k < n ==> (#[trigger] m[k]).1.len() > 0,
                forall|a: int, b: int|
                    0 <= a < i && 0 <= b < n && a != b ==> #[trigger] m[a].0 != #[trigger] m[b].0,
            decreases n - i,
        {
            let mut j: usize = 0;
            while j < n
                invariant
                    n == members@.len(),
                    m == entries_view(members@),
                    i < n,
                    j <= n,
                    forall|k: int| 0 <= k < n ==> (#[trigger] m[k]).1.len() > 0,
                    forall|a: int, b: int|
                        0 <= a < i && 0 <= b < n && a != b ==> #[trigger] m[a].0 != #[trigger] m[b].0,
                    forall|b: int| 0 <= b < j && i != b ==> m[i as int].0 != #[trigger] m[b].0,
                decreases n - j,
            {
                if i != j && members[i].0 == members[j].0 {
                    assert(m[i as int].0 == m[j as int].0);
                    return Err(MemberConfigError::DuplicateName);
                }
                j = j + 1;
            }
            i = i + 1;
        }
        Ok(MemberConfig { members, xline_port, sidecar_port })
    }

    /// The members with `port` appended to each host.
    fn with_port_appended(&self, port: u16) -> (r: Vec<(String, String)>)
        ensures
            with_port(self.entries(), entries_view(r@), port),
    {
        let mut r: Vec<(String, String)> = Vec::new();
        let mut i: usize = 0;
        while i < self.members.len()
            invariant
                i <= self.members@.len(),
                r@.len() == i,
                forall|k: int|
                    0 <= k < i ==> (#[trigger] entries_view(r@)[k]).0 == self.entries()[k].0
                        && entries_view(r@)[k].1 == address(self.entries()[k].1, port),
            decreases self.members@.len() - i,
        {
            let name = self.members[i].0.clone();
            let addr = host_port(self.members[i].1.as_str(), port);
            let ghost before = r@;
            r.push((name, addr));
            assert(entries_view(r@) =~= entries_view(before).push((name@, addr@)));
            i = i + 1;
        }
        r
    }

    /// Get the xline members: each host as `host:xline_port`.
    pub fn xline_members(&self) -> (r: Vec<(String, String)>)
        ensures
            with_port(self.entries(), entries_view(r@), self.xline_port),
    {
        self.with_port_appended(self.xline_port)
    }

    /// Get the sidecar members: each host as `host:sidecar_port`.
    pub fn sidecar_members(&self) -> (r: Vec<(String, String)>)
        ensures
            with_port(self.entries(), entries_view(r@), self.sidecar_port),
    {
        self.with_port_appended(self.sidecar_port)
    }

    /// Get the majority count: `floor(n / 2) + 1` for `n` members.
    pub fn majority_cnt(&self) -> (r: usize)
        ensures
            r == self.members@.len() / 2 + 1,
    {
        self.members.len() / 2 + 1
    }

    /// Get the host of the member called `name`, if there is one.
    pub fn get_host(&self, name: &str) -> (r: Option<&String>)
        ensures
            r is None <==> forall|i: int|
                0 <= i < self.members@.len() ==> (#[trigger] self.entries()[i]).0 != name@,
            r matches Some(h) ==> exists|i: int|
                0 <= i < self.members@.len() && (#[trigger] self.entries()[i]).0 == name@
                    && self.entries()[i].1 == h@,
    {
        let key = name.to_owned();
        let mut i: usize = 0;
        while i < self.members.len()
            invariant
                i <= self.members@.len(),
                key@ == name@,
                forall|k: int| 0 <= k < i ==> (#[trigger] self.entries()[k]).0 != name@,
            decreases self.members@.len() - i,
        {
            if self.members[i].0 == key {
                assert(self.entries()[i as int].0 == name@);
                return Some(&self.members[i].1);
            }
            i = i + 1;
        }
        None
    }
}

} // verus!
