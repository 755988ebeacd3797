//! The evtest-based locking fallback: its device descriptions, its error
//! type, and the parsing of the tool's device listing. Running the tool
//! itself is process work and stays with the caller.

use vstd::prelude::*;
use vstd::string::StringExecFns;
use vstd::string::StrSliceExecFns;

verus! {

/// Failure of the locking command.
#[derive(Debug, Clone)]
pub enum CommandError {
    /// The command needs root and did not have it.
    NotRunningAsRoot,
    /// The command could not be spawned or spoken to.
    Io(std::sync::Arc<std::io::Error>),
}

impl CommandError {
    /// Wraps an io failure (shared, since the error itself cannot be
    /// cloned).
    pub fn io(err: std::io::Error) -> (r: Self)
        ensures
            r is Io,
    {
        CommandError::Io(std::sync::Arc::new(err))
    }
}

/// One device as the listing tool reports it.
#[derive(Debug, Clone)]
pub struct ListedDevice {
    pub event_path: String,
    pub name: String,
}

impl ListedDevice {
    pub fn event_path(&self) -> (r: String)
        ensures
            r@ == self.event_path@,
    {
        self.event_path.clone()
    }
}

/// The whitespace trimmed from the listing's fields.
pub open spec fn is_ws(c: char) -> bool {
    c == ' ' || c == '\t' || c == '\r' || c == '\n'
}

/// The sequence without its leading whitespace.
pub open spec fn trim_start_spec(s: Seq<char>) -> Seq<char>
    decreases s.len(),
{
    if s.len() > 0 && is_ws(s.first()) {
        trim_start_spec(s.drop_first())
    } else {
        s
    }
}

/// The sequence without its trailing whitespace.
pub open spec fn trim_end_spec(s: Seq<char>) -> Seq<char>
    decreases s.len(),
{
    if s.len() > 0 && is_ws(s.last()) {
        trim_end_spec(s.drop_last())
    } else {
        s
    }
}

/// The sequence without whitespace at either end.
pub open spec fn trim_spec(s: Seq<char>) -> Seq<char> {
    trim_end_spec(trim_start_spec(s))
}

proof fn lemma_trim_start_skip(s: Seq<char>, a: int)
    requires
        0 <= a <= s.len(),
        forall|j: int| 0 <= j < a ==> is_ws(#[trigger] s[j]),
        a == s.len() || !is_ws(s[a]),
    ensures
        trim_start_spec(s) == s.skip(a),
    decreases a,
{
    if a == 0 {
        assert(s.skip(0) =~= s);
    } else {
        assert(is_ws(s.first()));
        lemma_trim_start_skip(s.drop_first(), a - 1);
        assert(s.drop_first().skip(a - 1) =~= s.skip(a));
    }
}

proof fn lemma_trim_end_take(s: Seq<char>, b: int)
    requires
        0 <= b <= s.len(),
        forall|j: int| b <= j < s.len() ==> is_ws(#[trigger] s[j]),
        b == 0 || !is_ws(s[b - 1]),
    ensures
        trim_end_spec(s) == s.take(b),
    decreases s.len() - b,
{
    if b == s.len() {
        if s.len() > 0 {
            assert(!is_ws(s.last()));
        }
        assert(s.take(b) =~= s);
    } else {
        assert(is_ws(s.last()));
        lemma_trim_end_take(s.drop_last(), b);
        assert(s.drop_last().take(b) =~= s.take(b));
    }
}

fn is_ws_char(c: char) -> (r: bool)
    ensures
        r == is_ws(c),
{
    c == ' ' || c == '\t' || c == '\r' || c == '\n'
}

/// Copies `s` with whitespace at either end removed.
fn trim_str(s: &str) -> (r: String)
    ensures
        r@ == trim_spec(s@),
{
    let n = s.unicode_len();
    let mut a: usize = 0;
    while a < n && is_ws_char(s.get_char(a))
        invariant
            n == s@.len(),
            0 <= a <= n,
            forall|j: int| 0 <= j < a ==> is_ws(#[trigger] s@[j]),
        decreases n - a,
    {
        a += 1;
    }
    let mut b: usize = n;
    while b > a && is_ws_char(s.get_char(b - 1))
        invariant
            n == s@.len(),
            0 <= a <= b <= n,
            forall|j: int| b <= j < n ==> is_ws(#[trigger] s@[j]),
        decreases b,
    {
        b -= 1;
    }
    let sub = s.substring_char(a, b);
    proof {
        lemma_trim_start_skip(s@, a as int);
        assert(forall|j: int|
            b - a <= j < s@.skip(a as int).len() ==> is_ws(#[trigger] s@.skip(a as int)[j]));
        lemma_trim_end_take(s@.skip(a as int), b - a);
        assert(s@.skip(a as int).take(b - a) =~= s@.subrange(a as int, b as int));
    }
    sub.to_owned()
}

/// The position of the first colon, where the listing splits path from
/// name.
pub open spec fn first_colon(s: Seq<char>) -> Option<int>
    decreases s.len(),
{
    if s.len() == 0 {
        None
    } else if s.first() == ':' {
        Some(0)
    } else {
        match first_colon(s.drop_first()) {
            Some(i) => Some(i + 1),
            None => None,
        }
    }
}

proof fn lemma_first_colon_at(s: Seq<char>, i: int)
    requires
        0 <= i < s.len(),
        forall|j: int| 0 <= j < i ==> #[trigger] s[j] != ':',
        s[i] == ':',
    ensures
        first_colon(s) == Some(i),
    decreases i,
{
    if i > 0 {
        lemma_first_colon_at(s.drop_first(), i - 1);
    }
}

proof fn lemma_first_colon_none(s: Seq<char>)
    requires
        forall|j: int| 0 <= j < s.len() ==> #[trigger] s[j] != ':',
    ensures
        first_colon(s) is None,
    decreases s.len(),
{
    if s.len() > 0 {
        lemma_first_colon_none(s.drop_first());
    }
}

fn find_colon(s: &str) -> (r: Option<usize>)
    ensures
        r matches Some(i) ==> i < s@.len() && first_colon(s@) == Some(i as int),
        r is None ==> first_colon(s@) is None,
{
    let n = s.unicode_len();
    let mut i: usize = 0;
    while i < n
        invariant
            n == s@.len(),
            0 <= i <= n,
            forall|j: int| 0 <= j < i ==> #[trigger] s@[j] != ':',
        decreases n - i,
    {
        if s.get_char(i) == ':' {
            proof {
                lemma_first_colon_at(s@, i as int);
            }
            return Some(i);
        }
        i += 1;
    }
    proof {
        lemma_first_colon_none(s@);
    }
    None
}

/// Whether `s` begins with `prefix`.
fn str_starts_with(s: &str, prefix: &str) -> (r: bool)
    ensures
        r == (s@.len() >= prefix@.len() && s@.subrange(0, prefix@.len() as int) == prefix@),
{
    let n = s.unicode_len();
    let p = prefix.unicode_len();
    if p > n {
        return false;
    }
    let mut i: usize = 0;
    while i < p
        invariant
            n == s@.len(),
            p == prefix@.len(),
            p <= n,
            0 <= i <= p,
            forall|j: int| 0 <= j < i ==> s@[j] == prefix@[j],
        decreases p - i,
    {
        if s.get_char(i) != prefix.get_char(i) {
            proof {
                assert(s@.subrange(0, prefix@.len() as int)[i as int] != prefix@[i as int]);
            }
            return false;
        }
        i += 1;
    }
    proof {
        assert(s@.subrange(0, prefix@.len() as int) =~= prefix@);
    }
    true
}

/// What one listing line yields: for a line that names an event node and
/// has a colon, the trimmed path and the trimmed remainder.
pub open spec fn parse_line_spec(s: Seq<char>) -> Option<(Seq<char>, Seq<char>)> {
    if s.len() >= "/dev/input/event"@.len() && s.subrange(0, "/dev/input/event"@.len() as int)
        == "/dev/input/event"@ {
        match first_colon(s) {
            Some(c) => Some((trim_spec(s.take(c)), trim_spec(s.skip(c + 1)))),
            None => None,
        }
    } else {
        None
    }
}

/// Parses one line of the listing tool's output.
pub fn parse_device_line(line: &str) -> (r: Option<ListedDevice>)
    ensures
        (r is Some) == (parse_line_spec(line@) is Some),
        r matches Some(d) ==> parse_line_spec(line@) == Some((d.event_path@, d.name@)),
{
    if !str_starts_with(line, "/dev/input/event") {
        return None;
    }
    let n = line.unicode_len();
    match find_colon(line) {
        Some(c) => {
            let before = line.substring_char(0, c);
            proof {
                assert(first_colon(line@) == Some(c as int));
                lemma_first_colon_bound(line@);
                assert(line@.subrange(0, c as int) =~= line@.take(c as int));
            }
            let after = line.substring_char(c + 1, n);
            proof {
                assert(line@.subrange(c + 1, n as int) =~= line@.skip(c + 1));
            }
            let event_path = trim_str(before);
            let name = trim_str(after);
            Some(ListedDevice { event_path, name })
        },
        None => None,
    }
}

proof fn lemma_first_colon_bound(s: Seq<char>)
    ensures
        first_colon(s) matches Some(i) ==> 0 <= i < s.len(),
    decreases s.len(),
{
    if s.len() > 0 && s.first() != ':' {
        lemma_first_colon_bound(s.drop_first());
    }
}

/// Whether a listing line parses.
pub open spec fn line_parses(v: Seq<char>) -> bool {
    parse_line_spec(v) is Some
}

/// Parses the listing tool's output: exactly the parseable lines, in
/// order, each as its path/name pair.
pub fn parse_device_lines(lines: &Vec<String>) -> (r: Vec<ListedDevice>)
    ensures
        r@.map_values(|d: ListedDevice| (d.event_path@, d.name@)) == lines@.map_values(
            |l: String| l@,
        ).filter(|v: Seq<char>| line_parses(v)).map_values(
            |v: Seq<char>| parse_line_spec(v).unwrap(),
        ),
{
    let ghost views = lines@.map_values(|l: String| l@);
    let ghost keep = |v: Seq<char>| line_parses(v);
    let ghost proj = |v: Seq<char>| parse_line_spec(v).unwrap();
    let mut r: Vec<ListedDevice> = Vec::new();
    let mut i: usize = 0;
    while i < lines.len()
        invariant
            views == lines@.map_values(|l: String| l@),
            keep == (|v: Seq<char>| line_parses(v)),
            proj == (|v: Seq<char>| parse_line_spec(v).unwrap()),
            0 <= i <= lines@.len(),
            r@.map_values(|d: ListedDevice| (d.event_path@, d.name@)) == views.take(i as int).filter(
                keep,
            ).map_values(proj),
        decreases lines@.len() - i,
    {
        proof {
            crate::registry::lemma_filter_take_step(views, keep, i as int);
            assert(views[i as int] == lines@[i as int]@);
        }
        let ghost entry = r@;
        let parsed = parse_device_line(lines[i].as_str());
        match parsed {
            Some(d) => {
                let ghost dv = (d.event_path@, d.name@);
                r.push(d);
                proof {
                    assert(keep(views[i as int]));
                    assert(proj(views[i as int]) == dv);
                    assert(r@.map_values(|d: ListedDevice| (d.event_path@, d.name@)) =~= entry.map_values(
                        |d: ListedDevice| (d.event_path@, d.name@),
                    ).push(dv));
                    assert(r@.map_values(|d: ListedDevice| (d.event_path@, d.name@)) =~= views.take(
                        i + 1,
                    ).filter(keep).map_values(proj));
                }
            },
            None => {
                proof {
                    assert(!keep(views[i as int]));
                    assert(r@.map_values(|d: ListedDevice| (d.event_path@, d.name@)) =~= views.take(
                        i + 1,
                    ).filter(keep).map_values(proj));
                }
            },
        }
        i += 1;
    }
    proof {
        assert(views.take(views.len() as int) == views);
    }
    r
}

} // verus!
