//! Operations on names and source text, stated over sequences of chars.

use vstd::prelude::*;
use vstd::string::*;

verus! {

broadcast use vstd::string::group_string_axioms;

/// `p` is the beginning of `s`.
pub open spec fn is_prefix(p: Seq<char>, s: Seq<char>) -> bool {
    p.len() <= s.len() && s.subrange(0, p.len() as int) == p
}

/// `x` is the end of `s`.
pub open spec fn is_suffix(x: Seq<char>, s: Seq<char>) -> bool {
    x.len() <= s.len() && s.subrange(s.len() - x.len(), s.len() as int) == x
}

/// `a`, a dot, then `b`: how a qualified name is put together.
pub open spec fn dotted(a: Seq<char>, b: Seq<char>) -> Seq<char> {
    a.push('.') + b
}

/// `s` ends in a dot followed by `name`, so `name` is its last segment and
/// something stands before the dot or the dot opens the text.
pub open spec fn ends_with_segment(s: Seq<char>, name: Seq<char>) -> bool {
    is_suffix(seq!['.'] + name, s)
}

/// `s` begins with `owner` followed by a dot.
pub open spec fn begins_with_owner(s: Seq<char>, owner: Seq<char>) -> bool {
    is_prefix(owner.push('.'), s)
}

/// The part of `s` before its first dot; all of `s` where it has none.
pub open spec fn first_segment_of(s: Seq<char>) -> Seq<char> {
    match s.index_of_first('.') {
        Some(i) => s.subrange(0, i),
        None => s,
    }
}

/// The part of `s` after its last dot; all of `s` where it has none.
pub open spec fn last_segment_of(s: Seq<char>) -> Seq<char> {
    match s.index_of_last('.') {
        Some(i) => s.subrange(i + 1, s.len() as int),
        None => s,
    }
}

/// The chars of `s`, in order.
pub fn chars_of(s: &str) -> (v: Vec<char>)
    ensures
        v@ == s@,
{
    let mut v: Vec<char> = Vec::new();
    for c in it: s.chars()
        invariant
            v@ == it.seq().take(it.index() as int),
            it.seq() == s@,
    {
        v.push(c);
    }
    v
}

/// Whether two texts hold the same chars.
#[verifier::loop_isolation(false)]
pub fn str_eq(a: &str, b: &str) -> (r: bool)
    ensures
        r == (a@ == b@),
{
    let x = a.as_bytes();
    let y = b.as_bytes();
    proof {
        vstd::utf8::encode_utf8_decode_utf8(a@);
        vstd::utf8::encode_utf8_decode_utf8(b@);
    }
    if x.len() != y.len() {
        return false;
    }
    let mut i: usize = 0;
    while i < x.len()
        invariant
            i <= x.len(),
            x.len() == y.len(),
            forall|j: int| 0 <= j < i ==> x@[j] == y@[j],
        decreases x.len() - i,
    {
        if x[i] != y[i] {
            return false;
        }
        i += 1;
    }
    assert(x@ =~= y@);
    true
}

/// Whether `p` stands in `s` at offset `at`.
pub fn matches_at(s: &Vec<char>, at: usize, p: &Vec<char>) -> (r: bool)
    requires
        at + p.len() <= s.len(),
    ensures
        r == (s@.subrange(at as int, at + p.len()) == p@),
{
    let mut i: usize = 0;
    while i < p.len()
        invariant
            i <= p.len(),
            at + p.len() <= s.len(),
            forall|j: int| 0 <= j < i ==> s@[at + j] == p@[j],
        decreases p.len() - i,
    {
        if s[at + i] != p[i] {
            assert(s@.subrange(at as int, at + p.len())[i as int] != p@[i as int]);
            return false;
        }
        i += 1;
    }
    assert(s@.subrange(at as int, at + p.len()) =~= p@);
    true
}

/// Whether `s` begins with `prefix`.
pub fn starts_with(s: &str, prefix: &str) -> (r: bool)
    ensures
        r == is_prefix(prefix@, s@),
{
    let sv = chars_of(s);
    let pv = chars_of(prefix);
    if pv.len() > sv.len() {
        return false;
    }
    matches_at(&sv, 0, &pv)
}

/// Whether `s` ends with a dot and then `name`.
pub fn has_last_segment(s: &str, name: &str) -> (r: bool)
    ensures
        r == ends_with_segment(s@, name@),
{
    let sv = chars_of(s);
    let nv = chars_of(name);
    if nv.len() >= sv.len() {
        return false;
    }
    let at: usize = sv.len() - nv.len();
    let dot = sv[at - 1] == '.';
    let rest = matches_at(&sv, at, &nv);
    proof {
        let x = seq!['.'] + name@;
        let tail = s@.subrange(s@.len() - x.len(), s@.len() as int);
        if dot && rest {
            assert(tail =~= x);
        } else if !dot {
            assert(tail[0] != x[0]);
        } else {
            assert(s@.subrange(at as int, at + nv.len()) =~= tail.subrange(1, tail.len() as int));
            assert(name@ =~= x.subrange(1, x.len() as int));
        }
    }
    dot && rest
}

/// Whether `s` begins with `owner` and then a dot.
pub fn has_owner(s: &str, owner: &str) -> (r: bool)
    ensures
        r == begins_with_owner(s@, owner@),
{
    let sv = chars_of(s);
    let ov = chars_of(owner);
    if ov.len() >= sv.len() {
        return false;
    }
    let dot = sv[ov.len()] == '.';
    let head = matches_at(&sv, 0, &ov);
    proof {
        let x = owner@.push('.');
        let front = s@.subrange(0, x.len() as int);
        if dot && head {
            assert(front =~= x);
        } else if !dot {
            assert(front[owner@.len() as int] != x[owner@.len() as int]);
        } else {
            assert(s@.subrange(0, ov.len() as int) =~= front.subrange(0, owner@.len() as int));
            assert(owner@ =~= x.subrange(0, owner@.len() as int));
        }
    }
    dot && head
}

/// `a`, a dot and `b` in one text.
pub fn join_dot(a: &str, b: &str) -> (r: String)
    ensures
        r@ == dotted(a@, b@),
{
    proof {
        reveal_strlit(".");
    }
    let r = String::from_str(a).concat(".").concat(b);
    assert(r@ =~= dotted(a@, b@));
    r
}

/// Index of the first `c` in `s`.
pub fn find_first(s: &Vec<char>, c: char) -> (r: Option<usize>)
    ensures
        match r {
            Some(i) => s@.index_of_first(c) == Some(i as int) && i < s.len(),
            None => s@.index_of_first(c) is None,
        },
{
    let mut i: usize = 0;
    while i < s.len()
        invariant
            i <= s.len(),
            forall|j: int| 0 <= j < i ==> s@[j] != c,
        decreases s.len() - i,
    {
        if s[i] == c {
            proof {
                assert(s@.contains(c));
                s@.index_of_first_ensures(c);
                let k = s@.index_of_first(c).unwrap();
                assert(s@[k] == c);
                assert(s@[i as int] == c);
            }
            return Some(i);
        }
        i += 1;
    }
    proof {
        s@.index_of_first_ensures(c);
    }
    None
}

/// Index of the last `c` in `s`.
pub fn find_last(s: &Vec<char>, c: char) -> (r: Option<usize>)
    ensures
        match r {
            Some(i) => s@.index_of_last(c) == Some(i as int) && i < s.len(),
            None => s@.index_of_last(c) is None,
        },
{
    let mut i: usize = s.len();
    while i > 0
        invariant
            i <= s.len(),
            forall|j: int| i <= j < s.len() ==> s@[j] != c,
        decreases i,
    {
        i -= 1;
        if s[i] == c {
            proof {
                assert(s@.contains(c));
                s@.index_of_last_ensures(c);
                let k = s@.index_of_last(c).unwrap();
                assert(s@[k] == c);
                assert(s@[i as int] == c);
            }
            return Some(i);
        }
    }
    proof {
        s@.index_of_last_ensures(c);
    }
    None
}

/// The part of `s` before its first dot.
pub fn first_segment(s: &str) -> (r: String)
    ensures
        r@ == first_segment_of(s@),
{
    let sv = chars_of(s);
    match find_first(&sv, '.') {
        Some(i) => {
            proof {
                s@.index_of_first_ensures('.');
            }
            s.substring_char(0, i).to_owned()
        },
        None => s.to_owned(),
    }
}

/// The part of `s` after its last dot.
pub fn last_segment(s: &str) -> (r: String)
    ensures
        r@ == last_segment_of(s@),
{
    let sv = chars_of(s);
    match find_last(&sv, '.') {
        Some(i) => {
            proof {
                s@.index_of_last_ensures('.');
            }
            s.substring_char(i + 1, sv.len()).to_owned()
        },
        None => s.to_owned(),
    }
}

/// Whether `c` is white space: one of the code points to which Unicode
/// gives the property `White_Space`.
pub open spec fn is_space(c: char) -> bool {
    let u = c as u32;
    (0x09 <= u <= 0x0D) || u == 0x20 || u == 0x85 || u == 0xA0 || u == 0x1680 || (0x2000 <= u
        <= 0x200A) || u == 0x2028 || u == 0x2029 || u == 0x202F || u == 0x205F || u == 0x3000
}

/// Whether `c` is a letter or a digit, as Unicode has it.
pub uninterp spec fn is_alnum(c: char) -> bool;

/// `char::is_whitespace`.
#[verifier::external_body]
pub(crate) fn char_is_whitespace(c: char) -> (r: bool)
    ensures
        r == is_space(c),
{
    c.is_whitespace()
}

/// `char::is_alphanumeric`.
#[verifier::external_body]
pub(crate) fn char_is_alphanumeric(c: char) -> (r: bool)
    ensures
        r == is_alnum(c),
{
    c.is_alphanumeric()
}

/// The segments of `s` between its dots, in order; a text without dots is
/// its own single segment.
pub open spec fn segments_of(s: Seq<char>) -> Seq<Seq<char>>
    decreases s.len(),
{
    match s.index_of_first('.') {
        Some(i) => if 0 <= i < s.len() {
            seq![s.subrange(0, i)] + segments_of(s.subrange(i + 1, s.len() as int))
        } else {
            seq![s]
        },
        None => seq![s],
    }
}

/// The segments of `s` between its dots.
pub fn split_dots(s: &str) -> (r: Vec<String>)
    ensures
        r.deep_view() == segments_of(s@),
        r.len() >= 1,
{
    let v = chars_of(s);
    let n = v.len();
    let mut out: Vec<String> = Vec::new();
    let mut start: usize = 0;
    let mut i: usize = 0;
    assert(s@.subrange(0, n as int) =~= s@);
    while i < n
        invariant
            start <= i <= n,
            n == v.len(),
            v@ == s@,
            forall|j: int| start <= j < i ==> v@[j] != '.',
            segments_of(s@) == out.deep_view() + segments_of(s@.subrange(start as int, n as int)),
        decreases n - i,
    {
        if v[i] == '.' {
            let ghost rest = s@.subrange(start as int, n as int);
            proof {
                rest.index_of_first_ensures('.');
                assert(rest[i - start] == '.');
                assert(rest.contains('.'));
                let k = rest.index_of_first('.').unwrap();
                if k < i - start {
                    assert(rest[k] == v@[start + k]);
                }
                assert(k == i - start);
                assert(rest.subrange(0, k) =~= s@.subrange(start as int, i as int));
                assert(rest.subrange(k + 1, rest.len() as int) =~= s@.subrange(i + 1, n as int));
            }
            let piece = s.substring_char(start, i).to_owned();
            let ghost before = out.deep_view();
            out.push(piece);
            proof {
                assert(out.deep_view() =~= before + seq![piece@]);
                assert(before + (seq![piece@] + segments_of(s@.subrange(i + 1, n as int)))
                    =~= out.deep_view() + segments_of(s@.subrange(i + 1, n as int)));
            }
            start = i + 1;
        }
        i += 1;
    }
    let ghost rest = s@.subrange(start as int, n as int);
    proof {
        rest.index_of_first_ensures('.');
        if rest.contains('.') {
            let k = rest.index_of_first('.').unwrap();
            assert(rest[k] == v@[start + k]);
        }
        assert(segments_of(rest) == seq![rest]);
    }
    let piece = s.substring_char(start, n).to_owned();
    let ghost before = out.deep_view();
    out.push(piece);
    assert(out.deep_view() =~= before + seq![piece@]);
    out
}

/// `s` without the white space it begins with.
pub open spec fn trim_start_of(s: Seq<char>) -> Seq<char>
    decreases s.len(),
{
    if s.len() > 0 && is_space(s[0]) {
        trim_start_of(s.drop_first())
    } else {
        s
    }
}

/// `s` without the white space it ends with.
pub open spec fn trim_end_of(s: Seq<char>) -> Seq<char>
    decreases s.len(),
{
    if s.len() > 0 && is_space(s.last()) {
        trim_end_of(s.drop_last())
    } else {
        s
    }
}

/// `s` without the white space around it.
pub open spec fn trimmed(s: Seq<char>) -> Seq<char> {
    trim_end_of(trim_start_of(s))
}

/// The chars of `s` from `from` up to `to`, without the white space around
/// them.
pub fn trimmed_part(s: &str, chars: &Vec<char>, from: usize, to: usize) -> (r: String)
    requires
        chars@ == s@,
        from <= to <= chars.len(),
    ensures
        r@ == trimmed(s@.subrange(from as int, to as int)),
{
    let ghost whole = s@.subrange(from as int, to as int);
    let mut a = from;
    while a < to && char_is_whitespace(chars[a])
        invariant
            from <= a <= to <= chars.len(),
            chars@ == s@,
            trim_start_of(whole) == trim_start_of(s@.subrange(a as int, to as int)),
        decreases to - a,
    {
        proof {
            let cur = s@.subrange(a as int, to as int);
            assert(cur[0] == chars@[a as int]);
            assert(cur.drop_first() =~= s@.subrange(a + 1, to as int));
        }
        a += 1;
    }
    proof {
        let cur = s@.subrange(a as int, to as int);
        if a < to {
            assert(cur[0] == chars@[a as int]);
        }
        assert(trim_start_of(cur) == cur);
    }
    let ghost front = s@.subrange(a as int, to as int);
    let mut b = to;
    while b > a && char_is_whitespace(chars[b - 1])
        invariant
            a <= b <= to <= chars.len(),
            chars@ == s@,
            trim_end_of(front) == trim_end_of(s@.subrange(a as int, b as int)),
        decreases b - a,
    {
        proof {
            let cur = s@.subrange(a as int, b as int);
            assert(cur.last() == chars@[b - 1]);
            assert(cur.drop_last() =~= s@.subrange(a as int, b - 1));
        }
        b -= 1;
    }
    proof {
        let cur = s@.subrange(a as int, b as int);
        if b > a {
            assert(cur.last() == chars@[b - 1]);
        }
        assert(trim_end_of(cur) == cur);
    }
    s.substring_char(a, b).to_owned()
}

} // verus!
