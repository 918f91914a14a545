use vstd::prelude::*;
use crate::PipelineError;
use crate::numerals::{is_u32_numeral, dec_val, dec_str, parse_u32, u32_to_string, is_digit};

verus! {

/// A local version tag: the three components parsed from a filename stem of
/// the form `{major}.{minor}.{patch}`.
#[derive(Debug, Clone, Copy, PartialEq, Eq, Structural)]
pub struct Version {
    pub major: u32,
    pub minor: u32,
    pub patch: u32,
}

/// The total lexicographic order on version tags, by (major, minor, patch).
pub open spec fn tag_le(a: Version, b: Version) -> bool {
    a.major < b.major || (a.major == b.major && (a.minor < b.minor || (a.minor == b.minor
        && a.patch <= b.patch)))
}

/// Compares two tags under the lexicographic order.
pub fn version_le(a: &Version, b: &Version) -> (r: bool)
    ensures
        r == tag_le(*a, *b),
{
    if a.major != b.major {
        a.major < b.major
    } else if a.minor != b.minor {
        a.minor < b.minor
    } else {
        a.patch <= b.patch
    }
}

/// Whether `stem` splits into three `u32` numerals at the dots `p1` and `p2`.
pub open spec fn splits_at(stem: Seq<char>, p1: int, p2: int) -> bool {
    0 <= p1 < p2 < stem.len() && stem[p1] == '.' && stem[p2] == '.' && is_u32_numeral(
        stem.subrange(0, p1),
    ) && is_u32_numeral(stem.subrange(p1 + 1, p2)) && is_u32_numeral(
        stem.subrange(p2 + 1, stem.len() as int),
    )
}

/// The tag the split at `p1` and `p2` denotes.
pub open spec fn tag_at(stem: Seq<char>, p1: int, p2: int) -> Version {
    Version {
        major: dec_val(stem.subrange(0, p1)) as u32,
        minor: dec_val(stem.subrange(p1 + 1, p2)) as u32,
        patch: dec_val(stem.subrange(p2 + 1, stem.len() as int)) as u32,
    }
}

/// Whether the stem decomposes into exactly three dot-separated non-negative
/// integers whose values give the tag `t`.
pub open spec fn parses_to(stem: Seq<char>, t: Version) -> bool {
    exists|p1: int, p2: int| #[trigger] splits_at(stem, p1, p2) && t == tag_at(stem, p1, p2)
}

/// A stem has at most one split: its two dots are pinned down, because digit
/// segments hold no dots.
proof fn lemma_split_unique(stem: Seq<char>, p1: int, p2: int, q1: int, q2: int)
    requires
        splits_at(stem, p1, p2),
        splits_at(stem, q1, q2),
    ensures
        p1 == q1 && p2 == q2,
{
    if p1 < q1 {
        assert(is_digit(stem.subrange(0, q1)[p1]));
    }
    if q1 < p1 {
        assert(is_digit(stem.subrange(0, p1)[q1]));
    }
    if p2 < q2 {
        assert(is_digit(stem.subrange(q1 + 1, q2)[p2 - q1 - 1]));
    }
    if q2 < p2 {
        assert(is_digit(stem.subrange(p1 + 1, p2)[q2 - p1 - 1]));
    }
}

/// A stem parses to at most one tag.
pub proof fn lemma_parses_to_unique(stem: Seq<char>, t: Version, u: Version)
    requires
        parses_to(stem, t),
        parses_to(stem, u),
    ensures
        t == u,
{
    let (p1, p2): (int, int) = choose|p1: int, p2: int|
        #[trigger] splits_at(stem, p1, p2) && t == tag_at(stem, p1, p2);
    let (q1, q2): (int, int) = choose|q1: int, q2: int|
        #[trigger] splits_at(stem, q1, q2) && u == tag_at(stem, q1, q2);
    lemma_split_unique(stem, p1, p2, q1, q2);
}

/// Parses a filename stem as a version tag: succeeds exactly when the stem is
/// three dot-separated `u32` numerals, and then returns their values.
pub fn parse_version_stem(stem: &str) -> (r: Option<Version>)
    ensures
        match r {
            Some(t) => parses_to(stem@, t) && (forall|u: Version|
                parses_to(stem@, u) ==> u == t),
            None => forall|t: Version| !parses_to(stem@, t),
        },
{
    let n = stem.unicode_len();
    let mut p1opt: Option<usize> = None;
    let mut p2opt: Option<usize> = None;
    let mut i: usize = 0;
    while i < n
        invariant
            i <= n == stem@.len(),
            p1opt is None ==> p2opt is None && (forall|k: int| 0 <= k < i ==> stem@[k] != '.'),
            p1opt matches Some(p1) ==> p1 < i && stem@[p1 as int] == '.' && (forall|k: int|
                0 <= k < p1 ==> stem@[k] != '.'),
            p1opt matches Some(p1) ==> (p2opt is None ==> (forall|k: int|
                p1 < k < i ==> stem@[k] != '.')),
            p2opt matches Some(p2) ==> p1opt matches Some(p1) && p1 < p2 < i && stem@[p2 as int]
                == '.' && (forall|k: int| p1 < k < p2 ==> stem@[k] != '.'),
        decreases n - i,
    {
        if stem.get_char(i) == '.' {
            if p1opt.is_none() {
                p1opt = Some(i);
            } else if p2opt.is_none() {
                p2opt = Some(i);
            }
        }
        i = i + 1;
    }
    if p1opt.is_none() || p2opt.is_none() {
        proof {
            assert forall|t: Version| !parses_to(stem@, t) by {
                if parses_to(stem@, t) {
                    let (q1, q2): (int, int) = choose|q1: int, q2: int|
                        #[trigger] splits_at(stem@, q1, q2) && t == tag_at(stem@, q1, q2);
                    if p1opt is Some {
                        let p1 = p1opt->0 as int;
                        assert(q1 == p1 && q2 == p1);
                    }
                }
            }
        }
        return None;
    }
    let p1 = p1opt.unwrap();
    let p2 = p2opt.unwrap();
    let a = stem.substring_char(0, p1);
    let b = stem.substring_char(p1 + 1, p2);
    let c = stem.substring_char(p2 + 1, n);
    let ra = parse_u32(a);
    let rb = parse_u32(b);
    let rc = parse_u32(c);
    if ra.is_none() || rb.is_none() || rc.is_none() {
        proof {
            assert forall|t: Version| !parses_to(stem@, t) by {
                if parses_to(stem@, t) {
                    let (q1, q2): (int, int) = choose|q1: int, q2: int|
                        #[trigger] splits_at(stem@, q1, q2) && t == tag_at(stem@, q1, q2);
                    if q1 != p1 as int || q2 != p2 as int {
                        if q1 < p1 as int {
                            assert(stem@[q1] != '.');
                        } else if (p1 as int) < q1 {
                            assert(is_digit(stem@.subrange(0, q1)[p1 as int]));
                        }
                        if q2 < p2 as int {
                            assert(stem@[q2] != '.');
                        } else if (p2 as int) < q2 {
                            assert(is_digit(stem@.subrange(q1 + 1, q2)[p2 as int - q1 - 1]));
                        }
                    }
                }
            }
        }
        return None;
    }
    let t = Version { major: ra.unwrap(), minor: rb.unwrap(), patch: rc.unwrap() };
    proof {
        assert(splits_at(stem@, p1 as int, p2 as int));
        assert(t == tag_at(stem@, p1 as int, p2 as int));
        assert forall|u: Version| parses_to(stem@, u) implies u == t by {
            lemma_parses_to_unique(stem@, u, t);
        }
    }
    Some(t)
}

/// The index of the last `.` in `s`, or -1 when there is none.
pub open spec fn last_dot(s: Seq<char>) -> int
    decreases s.len(),
{
    if s.len() == 0 {
        -1
    } else if s.last() == '.' {
        s.len() - 1
    } else {
        last_dot(s.drop_last())
    }
}

/// The filename stem: everything before the last `.`, unless that dot leads
/// the name or there is none, in which case the whole name.
pub open spec fn spec_stem(s: Seq<char>) -> Seq<char> {
    if last_dot(s) <= 0 {
        s
    } else {
        s.take(last_dot(s))
    }
}

proof fn lemma_last_dot_none(s: Seq<char>)
    requires
        forall|k: int| 0 <= k < s.len() ==> s[k] != '.',
    ensures
        last_dot(s) == -1,
    decreases s.len(),
{
    if s.len() > 0 {
        lemma_last_dot_none(s.drop_last());
    }
}

proof fn lemma_last_dot_at(s: Seq<char>, j: int)
    requires
        0 <= j < s.len(),
        s[j] == '.',
        forall|k: int| j < k < s.len() ==> s[k] != '.',
    ensures
        last_dot(s) == j,
    decreases s.len(),
{
    if j < s.len() - 1 {
        lemma_last_dot_at(s.drop_last(), j);
    }
}

/// The stem of a file name, as a path library reports it: the portion before
/// the last dot, or the whole name when there is no dot past the first
/// character.
pub fn file_stem(name: &str) -> (r: String)
    ensures
        r@ == spec_stem(name@),
{
    let n = name.unicode_len();
    let mut i: usize = n;
    while i > 0
        invariant
            i <= n == name@.len(),
            forall|k: int| i <= k < n ==> name@[k] != '.',
        decreases i,
    {
        if name.get_char(i - 1) == '.' {
            proof {
                lemma_last_dot_at(name@, i as int - 1);
            }
            if i == 1 {
                return name.to_owned();
            }
            return name.substring_char(0, i - 1).to_owned();
        }
        i = i - 1;
    }
    proof {
        lemma_last_dot_none(name@);
    }
    name.to_owned()
}

/// The rendering `{major}.{minor}.{patch}` of a tag.
pub open spec fn spec_version_string(t: Version) -> Seq<char> {
    dec_str(t.major as nat) + seq!['.'] + dec_str(t.minor as nat) + seq!['.'] + dec_str(
        t.patch as nat,
    )
}

/// Renders a tag back to its `{major}.{minor}.{patch}` form.
pub fn version_to_string(t: &Version) -> (r: String)
    ensures
        r@ == spec_version_string(*t),
{
    proof {
        reveal_strlit(".");
        assert("."@ =~= seq!['.']);
    }
    let mut s = u32_to_string(t.major);
    s.append(".");
    let m = u32_to_string(t.minor);
    s.append(m.as_str());
    s.append(".");
    let p = u32_to_string(t.patch);
    s.append(p.as_str());
    proof {
        assert(s@ =~= spec_version_string(*t));
    }
    s
}

/// Whether the stem of `name` parses to some version tag.
pub open spec fn has_tag(name: Seq<char>) -> bool {
    exists|t: Version| parses_to(spec_stem(name), t)
}

/// What a successful scan must return: every name's stem carries a tag, and
/// the result renders a tag that some name carries and no name exceeds.
pub open spec fn scan_ok(names: Seq<String>, s: Seq<char>) -> bool {
    names.len() > 0 && (forall|j: int| 0 <= j < names.len() ==> has_tag(#[trigger] names[j]@))
        && exists|t: Version|
        {
            &&& s == #[trigger] spec_version_string(t)
            &&& exists|i: int| 0 <= i < names.len() && parses_to(spec_stem(#[trigger] names[i]@), t)
            &&& forall|j: int, u: Version|
                0 <= j < names.len() && #[trigger] parses_to(spec_stem(names[j]@), u) ==> tag_le(
                    u,
                    t,
                )
        }
}

/// Scans the file names of a versions directory and returns the greatest
/// version tag, rendered back to `{major}.{minor}.{patch}`. Fails with
/// `EmptyDirectory` when there are no names, and with `ParseError` naming the
/// first file whose stem is not a version tag.
pub fn find_latest_version(names: &Vec<String>) -> (r: Result<String, PipelineError>)
    ensures
        match r {
            Ok(s) => scan_ok(names@, s@),
            Err(e) => match e {
                PipelineError::EmptyDirectory => names@.len() == 0,
                PipelineError::ParseError(nm) => exists|i: int|
                    0 <= i < names@.len() && !has_tag(#[trigger] names@[i]@) && (forall|k: int|
                        0 <= k < i ==> has_tag(#[trigger] names@[k]@)) && nm@ == names@[i]@,
                _ => false,
            },
        },
{
    if names.len() == 0 {
        return Err(PipelineError::EmptyDirectory);
    }
    let mut best: Option<Version> = None;
    let mut i: usize = 0;
    while i < names.len()
        invariant
            i <= names@.len(),
            best is Some <==> i > 0,
            forall|k: int| 0 <= k < i ==> has_tag(#[trigger] names@[k]@),
            best matches Some(b) ==> (exists|k: int|
                0 <= k < i && parses_to(spec_stem(#[trigger] names@[k]@), b)) && (forall|
                k: int,
                u: Version,
            |
                0 <= k < i && #[trigger] parses_to(spec_stem(names@[k]@), u) ==> tag_le(u, b)),
        decreases names@.len() - i,
    {
        let name = &names[i];
        let stem = file_stem(name.as_str());
        match parse_version_stem(stem.as_str()) {
            None => {
                return Err(PipelineError::ParseError(name.clone()));
            },
            Some(t) => {
                let nb = match &best {
                    None => t,
                    Some(b) => if version_le(b, &t) {
                        t
                    } else {
                        *b
                    },
                };
                proof {
                    assert forall|k: int, u: Version|
                        0 <= k < i + 1 && #[trigger] parses_to(spec_stem(names@[k]@), u)
                        implies tag_le(u, nb) by {
                        if k == i {
                            lemma_parses_to_unique(spec_stem(names@[k]@), u, t);
                        }
                    }
                }
                best = Some(nb);
            },
        }
        i = i + 1;
    }
    let b = best.unwrap();
    let s = version_to_string(&b);
    Ok(s)
}

/// Law: scanning the same names twice returns the same rendered tag — the
/// scan's result is a function of the directory contents alone.
pub proof fn lemma_scan_deterministic(names: Seq<String>, s1: Seq<char>, s2: Seq<char>)
    requires
        scan_ok(names, s1),
        scan_ok(names, s2),
    ensures
        s1 == s2,
{
    let t1 = choose|t: Version|
        {
            &&& s1 == #[trigger] spec_version_string(t)
            &&& exists|i: int| 0 <= i < names.len() && parses_to(spec_stem(#[trigger] names[i]@), t)
            &&& forall|j: int, u: Version|
                0 <= j < names.len() && #[trigger] parses_to(spec_stem(names[j]@), u) ==> tag_le(
                    u,
                    t,
                )
        };
    let t2 = choose|t: Version|
        {
            &&& s2 == #[trigger] spec_version_string(t)
            &&& exists|i: int| 0 <= i < names.len() && parses_to(spec_stem(#[trigger] names[i]@), t)
            &&& forall|j: int, u: Version|
                0 <= j < names.len() && #[trigger] parses_to(spec_stem(names[j]@), u) ==> tag_le(
                    u,
                    t,
                )
        };
    let i1 = choose|i: int| 0 <= i < names.len() && parses_to(spec_stem(#[trigger] names[i]@), t1);
    let i2 = choose|i: int| 0 <= i < names.len() && parses_to(spec_stem(#[trigger] names[i]@), t2);
    assert(tag_le(t1, t2));
    assert(tag_le(t2, t1));
    assert(t1 == t2);
}

} // verus!
