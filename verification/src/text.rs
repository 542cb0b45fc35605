//! Text primitives on which the rest of the library is built.
//!
//! A string is viewed as its sequence of characters. Every operation here is
//! stated over that view and proved against it.

use vstd::prelude::*;
use vstd::string::StringExecFns;

verus! {

/// `String::push` of the standard library: the character is appended at the end.
pub assume_specification[ std::string::String::push ](s: &mut std::string::String, c: char)
    ensures
        final(s)@ == old(s)@.push(c),
;

/// The views of a sequence of strings.
pub open spec fn views(v: Seq<String>) -> Seq<Seq<char>> {
    Seq::new(v.len(), |i: int| v[i]@)
}

/// `p` occurs in `s` at index `i`.
pub open spec fn occurs_at(s: Seq<char>, i: int, p: Seq<char>) -> bool {
    &&& 0 <= i
    &&& i + p.len() <= s.len()
    &&& s.subrange(i, i + p.len()) == p
}

pub open spec fn has_prefix(s: Seq<char>, p: Seq<char>) -> bool {
    occurs_at(s, 0, p)
}

pub open spec fn has_suffix(s: Seq<char>, p: Seq<char>) -> bool {
    occurs_at(s, s.len() - p.len(), p)
}

pub open spec fn contains_text(s: Seq<char>, p: Seq<char>) -> bool {
    exists|i: int| occurs_at(s, i, p)
}

/// Every non-overlapping occurrence of `from`, taken from the left, replaced by `to`.
/// The empty pattern occurs before every character and at the end.
pub open spec fn replace_all(s: Seq<char>, from: Seq<char>, to: Seq<char>) -> Seq<char>
    decreases s.len(),
{
    if s.len() == 0 {
        if from.len() == 0 {
            to
        } else {
            s
        }
    } else if from.len() == 0 {
        to + seq![s[0]] + replace_all(s.skip(1), from, to)
    } else if has_prefix(s, from) {
        to + replace_all(s.skip(from.len() as int), from, to)
    } else {
        seq![s[0]] + replace_all(s.skip(1), from, to)
    }
}

/// The pieces of `s` between occurrences of a non-empty `sep`, `cur` being the
/// piece under way.
pub open spec fn split_acc(s: Seq<char>, sep: Seq<char>, cur: Seq<char>) -> Seq<Seq<char>>
    decreases s.len(),
{
    if s.len() == 0 {
        seq![cur]
    } else if sep.len() > 0 && has_prefix(s, sep) {
        seq![cur] + split_acc(s.skip(sep.len() as int), sep, Seq::empty())
    } else {
        split_acc(s.skip(1), sep, cur.push(s[0]))
    }
}

/// Each character as a piece of its own.
pub open spec fn singletons(s: Seq<char>) -> Seq<Seq<char>> {
    Seq::new(s.len(), |i: int| seq![s[i]])
}

/// The pieces of `s` between occurrences of `sep`. With an empty separator the
/// pieces are an empty one, each character, and an empty one.
pub open spec fn split_on(s: Seq<char>, sep: Seq<char>) -> Seq<Seq<char>> {
    if sep.len() == 0 {
        seq![Seq::<char>::empty()] + singletons(s) + seq![Seq::<char>::empty()]
    } else {
        split_acc(s, sep, Seq::empty())
    }
}

/// The characters with the Unicode property White_Space.
pub open spec fn is_space(c: char) -> bool {
    let n = c as u32;
    ||| 0x09 <= n <= 0x0D
    ||| n == 0x20
    ||| n == 0x85
    ||| n == 0xA0
    ||| n == 0x1680
    ||| 0x2000 <= n <= 0x200A
    ||| n == 0x2028
    ||| n == 0x2029
    ||| n == 0x202F
    ||| n == 0x205F
    ||| n == 0x3000
}

/// The maximal runs of characters that are not white space, `cur` being the run
/// under way.
pub open spec fn words_acc(s: Seq<char>, cur: Seq<char>) -> Seq<Seq<char>>
    decreases s.len(),
{
    if s.len() == 0 {
        if cur.len() == 0 {
            Seq::empty()
        } else {
            seq![cur]
        }
    } else if is_space(s[0]) {
        if cur.len() == 0 {
            words_acc(s.skip(1), cur)
        } else {
            seq![cur] + words_acc(s.skip(1), Seq::empty())
        }
    } else {
        words_acc(s.skip(1), cur.push(s[0]))
    }
}

pub open spec fn words(s: Seq<char>) -> Seq<Seq<char>> {
    words_acc(s, Seq::empty())
}

/// The pieces joined, `sep` between each two.
pub open spec fn join_with(parts: Seq<Seq<char>>, sep: Seq<char>) -> Seq<char>
    decreases parts.len(),
{
    if parts.len() == 0 {
        Seq::empty()
    } else if parts.len() == 1 {
        parts[0]
    } else {
        join_with(parts.drop_last(), sep) + sep + parts.last()
    }
}

/// `s` without its leading white space.
pub open spec fn trim_start(s: Seq<char>) -> Seq<char>
    decreases s.len(),
{
    if s.len() > 0 && is_space(s[0]) {
        trim_start(s.skip(1))
    } else {
        s
    }
}

/// `s` without its trailing white space.
pub open spec fn trim_end(s: Seq<char>) -> Seq<char>
    decreases s.len(),
{
    if s.len() > 0 && is_space(s.last()) {
        trim_end(s.drop_last())
    } else {
        s
    }
}

pub open spec fn trimmed(s: Seq<char>) -> Seq<char> {
    trim_end(trim_start(s))
}

/// The index at which `p` last occurs in `s`, if it occurs, searching down from `from`.
pub open spec fn last_occurrence(s: Seq<char>, p: Seq<char>, from: int) -> Option<int>
    decreases from + 1,
{
    if from < 0 {
        None
    } else if occurs_at(s, from, p) {
        Some(from)
    } else {
        last_occurrence(s, p, from - 1)
    }
}

/// `s` with the last occurrence of `pattern` replaced, or `s` where there is none.
pub open spec fn right_replaced_once(s: Seq<char>, pattern: Seq<char>, to: Seq<char>) -> Seq<char> {
    match last_occurrence(s, pattern, s.len() as int) {
        Some(i) => s.subrange(0, i) + to + s.subrange(i + pattern.len(), s.len() as int),
        None => s,
    }
}

/// Code points compared from the left; a proper prefix comes first. This is the
/// order of `str` in the standard library.
pub open spec fn lex_le(a: Seq<char>, b: Seq<char>) -> bool
    decreases a.len(),
{
    if a.len() == 0 {
        true
    } else if b.len() == 0 {
        false
    } else if a[0] as u32 != b[0] as u32 {
        (a[0] as u32) < (b[0] as u32)
    } else {
        lex_le(a.skip(1), b.skip(1))
    }
}

pub open spec fn digit_char(d: nat) -> char
    recommends
        d < 10,
{
    (48 + d) as u8 as char
}

/// The decimal digits of `n`, without leading zeros.
pub open spec fn decimal(n: nat) -> Seq<char>
    decreases n,
{
    if n < 10 {
        seq![digit_char(n)]
    } else {
        decimal(n / 10).push(digit_char(n % 10))
    }
}

/// A signed number in decimal.
pub open spec fn signed_decimal(n: int) -> Seq<char> {
    if n < 0 {
        seq!['-'] + decimal((-n) as nat)
    } else {
        decimal(n as nat)
    }
}

/// `n` in decimal, filled with zeros on the left to three digits.
pub open spec fn padded3(n: nat) -> Seq<char> {
    if n < 10 {
        seq!['0', '0'] + decimal(n)
    } else if n < 100 {
        seq!['0'] + decimal(n)
    } else {
        decimal(n)
    }
}

pub open spec fn is_digit(c: char) -> bool {
    48 <= c as u32 <= 57
}

pub open spec fn all_digits(s: Seq<char>) -> bool {
    forall|i: int| 0 <= i < s.len() ==> is_digit(#[trigger] s[i])
}

/// The number that a run of decimal digits denotes.
pub open spec fn digits_value(s: Seq<char>) -> nat
    decreases s.len(),
{
    if s.len() == 0 {
        0
    } else {
        digits_value(s.drop_last()) * 10 + (s.last() as u32 - 48) as nat
    }
}

/// What `str::parse::<u32>` accepts: an optional `+`, then at least one
/// decimal digit, the number being below 2^32.
pub open spec fn parsed_u32(s: Seq<char>) -> Option<u32> {
    let body = if s.len() > 0 && s[0] == '+' {
        s.skip(1)
    } else {
        s
    };
    if body.len() > 0 && all_digits(body) && digits_value(body) <= u32::MAX {
        Some(digits_value(body) as u32)
    } else {
        None
    }
}

pub fn chars_of(s: &str) -> (v: Vec<char>)
    ensures
        v@ == s@,
{
    let mut v: Vec<char> = Vec::new();
    for c in it: s.chars()
        invariant
            v@ == it.seq().take(it.index() as int),
            it.seq() == s@,
    {
        v.push(c);
    }
    v
}

/// The characters of `v` from `from` up to `to`, as a string.
pub fn string_between(v: &Vec<char>, from: usize, to: usize) -> (s: String)
    requires
        from <= to <= v.len(),
    ensures
        s@ == v@.subrange(from as int, to as int),
{
    let mut s = String::new();
    let mut i: usize = from;
    while i < to
        invariant
            from <= i <= to <= v.len(),
            s@ == v@.subrange(from as int, i as int),
        decreases to - i,
    {
        s.push(v[i]);
        i = i + 1;
    }
    s
}

pub fn string_of(v: &Vec<char>) -> (s: String)
    ensures
        s@ == v@,
{
    string_between(v, 0, v.len())
}

pub fn copy_str(s: &str) -> (r: String)
    ensures
        r@ == s@,
{
    String::from_str(s)
}

pub fn str_eq(a: &str, b: &str) -> (r: bool)
    ensures
        r == (a@ == b@),
{
    String::from_str(a) == String::from_str(b)
}

pub fn concat2(a: &str, b: &str) -> (r: String)
    ensures
        r@ == a@ + b@,
{
    let mut s = String::from_str(a);
    s.append(b);
    s
}

pub fn concat3(a: &str, b: &str, c: &str) -> (r: String)
    ensures
        r@ == a@ + b@ + c@,
{
    let mut s = String::from_str(a);
    s.append(b);
    s.append(c);
    s
}

pub fn concat4(a: &str, b: &str, c: &str, d: &str) -> (r: String)
    ensures
        r@ == a@ + b@ + c@ + d@,
{
    let mut s = String::from_str(a);
    s.append(b);
    s.append(c);
    s.append(d);
    s
}

pub fn concat5(a: &str, b: &str, c: &str, d: &str, e: &str) -> (r: String)
    ensures
        r@ == a@ + b@ + c@ + d@ + e@,
{
    let mut s = String::from_str(a);
    s.append(b);
    s.append(c);
    s.append(d);
    s.append(e);
    s
}

fn append_chars(out: &mut Vec<char>, src: &Vec<char>)
    ensures
        final(out)@ == old(out)@ + src@,
{
    let mut i: usize = 0;
    while i < src.len()
        invariant
            i <= src.len(),
            out@ == old(out)@ + src@.take(i as int),
        decreases src.len() - i,
    {
        out.push(src[i]);
        i = i + 1;
    }
}

pub fn matches_at(s: &Vec<char>, i: usize, p: &Vec<char>) -> (r: bool)
    requires
        i <= s.len(),
    ensures
        r == occurs_at(s@, i as int, p@),
{
    if p.len() > s.len() - i {
        return false;
    }
    let mut k: usize = 0;
    while k < p.len()
        invariant
            k <= p.len(),
            i + p.len() <= s.len(),
            forall|j: int| 0 <= j < k ==> s@[i + j] == p@[j],
        decreases p.len() - k,
    {
        if s[i + k] != p[k] {
            proof {
                assert(s@.subrange(i as int, i + p.len())[k as int] == s@[i + k]);
            }
            return false;
        }
        k = k + 1;
    }
    proof {
        assert(s@.subrange(i as int, i + p.len()) =~= p@);
    }
    true
}

pub fn starts_with(s: &str, p: &str) -> (r: bool)
    ensures
        r == has_prefix(s@, p@),
{
    let sv = chars_of(s);
    let pv = chars_of(p);
    matches_at(&sv, 0, &pv)
}

pub fn ends_with(s: &str, p: &str) -> (r: bool)
    ensures
        r == has_suffix(s@, p@),
{
    let sv = chars_of(s);
    let pv = chars_of(p);
    if pv.len() > sv.len() {
        return false;
    }
    matches_at(&sv, sv.len() - pv.len(), &pv)
}

pub fn contains(s: &str, p: &str) -> (r: bool)
    ensures
        r == contains_text(s@, p@),
{
    let sv = chars_of(s);
    let pv = chars_of(p);
    let mut i: usize = 0;
    while i < sv.len()
        invariant
            i <= sv.len(),
            sv@ == s@,
            pv@ == p@,
            forall|j: int| 0 <= j < i ==> !occurs_at(sv@, j, pv@),
        decreases sv.len() - i,
    {
        if matches_at(&sv, i, &pv) {
            return true;
        }
        i = i + 1;
    }
    matches_at(&sv, sv.len(), &pv)
}

pub fn replace(s: &str, from: &str, to: &str) -> (r: String)
    ensures
        r@ == replace_all(s@, from@, to@),
{
    let sv = chars_of(s);
    let fv = chars_of(from);
    let tv = chars_of(to);
    let mut out: Vec<char> = Vec::new();
    let mut i: usize = 0;
    proof {
        assert(sv@.skip(0) =~= sv@);
        assert(out@ + replace_all(sv@, fv@, tv@) =~= replace_all(sv@, fv@, tv@));
    }
    while i < sv.len()
        invariant
            i <= sv.len(),
            out@ + replace_all(sv@.skip(i as int), fv@, tv@) == replace_all(sv@, fv@, tv@),
        decreases sv.len() - i,
    {
        let ghost rest = sv@.skip(i as int);
        if fv.len() == 0 {
            append_chars(&mut out, &tv);
            out.push(sv[i]);
            proof {
                assert(rest.skip(1) =~= sv@.skip(i + 1));
                assert(rest[0] == sv@[i as int]);
            }
            i = i + 1;
        } else if matches_at(&sv, i, &fv) {
            append_chars(&mut out, &tv);
            proof {
                assert(rest.subrange(0, fv@.len() as int) =~= sv@.subrange(i as int, i + fv@.len()));
                assert(rest.skip(fv@.len() as int) =~= sv@.skip(i + fv@.len()));
            }
            i = i + fv.len();
        } else {
            out.push(sv[i]);
            proof {
                if has_prefix(rest, fv@) {
                    assert(rest.subrange(0, fv@.len() as int) =~= sv@.subrange(
                        i as int,
                        i + fv@.len(),
                    ));
                }
                assert(rest.skip(1) =~= sv@.skip(i + 1));
                assert(rest[0] == sv@[i as int]);
            }
            i = i + 1;
        }
    }
    if fv.len() == 0 {
        append_chars(&mut out, &tv);
    }
    proof {
        assert(sv@.skip(sv@.len() as int).len() == 0);
    }
    string_of(&out)
}

pub fn split(s: &str, sep: &str) -> (r: Vec<String>)
    ensures
        views(r@) == split_on(s@, sep@),
{
    let sv = chars_of(s);
    let pv = chars_of(sep);
    let mut parts: Vec<String> = Vec::new();
    if pv.len() == 0 {
        parts.push(String::new());
        proof {
            assert(views(parts@) =~= seq![Seq::<char>::empty()] + singletons(sv@.take(0)));
        }
        let mut k: usize = 0;
        while k < sv.len()
            invariant
                k <= sv.len(),
                views(parts@) == seq![Seq::<char>::empty()] + singletons(sv@.take(k as int)),
            decreases sv.len() - k,
        {
            let piece = string_between(&sv, k, k + 1);
            proof {
                assert(piece@ =~= seq![sv@[k as int]]);
                assert(views(parts@.push(piece)) =~= views(parts@).push(piece@));
                assert(singletons(sv@.take(k + 1)) =~= singletons(sv@.take(k as int)).push(
                    seq![sv@[k as int]],
                ));
                assert(views(parts@.push(piece)) =~= seq![Seq::<char>::empty()] + singletons(
                    sv@.take(k + 1),
                ));
            }
            parts.push(piece);
            k = k + 1;
        }
        let last = String::new();
        proof {
            assert(sv@.take(sv@.len() as int) =~= sv@);
            assert(views(parts@.push(last)) =~= views(parts@).push(last@));
            assert(views(parts@.push(last)) =~= split_on(sv@, pv@));
        }
        parts.push(last);
        return parts;
    }
    let mut start: usize = 0;
    let mut i: usize = 0;
    proof {
        assert(sv@.skip(0) =~= sv@);
        assert(sv@.subrange(0, 0) =~= Seq::<char>::empty());
        assert(views(parts@) + split_acc(sv@, pv@, Seq::empty()) =~= split_acc(
            sv@,
            pv@,
            Seq::empty(),
        ));
    }
    while i < sv.len()
        invariant
            start <= i <= sv.len(),
            pv.len() > 0,
            views(parts@) + split_acc(
                sv@.skip(i as int),
                pv@,
                sv@.subrange(start as int, i as int),
            ) == split_acc(sv@, pv@, Seq::empty()),
        decreases sv.len() - i,
    {
        let ghost rest = sv@.skip(i as int);
        let ghost cur = sv@.subrange(start as int, i as int);
        if matches_at(&sv, i, &pv) {
            let piece = string_between(&sv, start, i);
            proof {
                assert(rest.subrange(0, pv@.len() as int) =~= sv@.subrange(i as int, i + pv@.len()));
                assert(rest.skip(pv@.len() as int) =~= sv@.skip(i + pv@.len()));
                assert(views(parts@.push(piece)) =~= views(parts@) + seq![cur]);
                assert(sv@.subrange(i + pv@.len(), i + pv@.len()) =~= Seq::<char>::empty());
            }
            parts.push(piece);
            i = i + pv.len();
            start = i;
        } else {
            proof {
                if has_prefix(rest, pv@) {
                    assert(rest.subrange(0, pv@.len() as int) =~= sv@.subrange(
                        i as int,
                        i + pv@.len(),
                    ));
                }
                assert(rest.skip(1) =~= sv@.skip(i + 1));
                assert(cur.push(rest[0]) =~= sv@.subrange(start as int, i + 1));
            }
            i = i + 1;
        }
    }
    let piece = string_between(&sv, start, sv.len());
    proof {
        assert(sv@.skip(sv@.len() as int).len() == 0);
        assert(views(parts@.push(piece)) =~= views(parts@) + seq![piece@]);
    }
    parts.push(piece);
    parts
}

pub fn is_space_char(c: char) -> (r: bool)
    ensures
        r == is_space(c),
{
    let n: u32 = c as u32;
    (0x09 <= n && n <= 0x0D) || n == 0x20 || n == 0x85 || n == 0xA0 || n == 0x1680 || (0x2000 <= n
        && n <= 0x200A) || n == 0x2028 || n == 0x2029 || n == 0x202F || n == 0x205F || n == 0x3000
}

pub fn split_whitespace(s: &str) -> (r: Vec<String>)
    ensures
        views(r@) == words(s@),
{
    let sv = chars_of(s);
    let mut parts: Vec<String> = Vec::new();
    let mut start: usize = 0;
    let mut i: usize = 0;
    proof {
        assert(sv@.skip(0) =~= sv@);
        assert(sv@.subrange(0, 0) =~= Seq::<char>::empty());
        assert(views(parts@) + words(sv@) =~= words(sv@));
    }
    while i < sv.len()
        invariant
            start <= i <= sv.len(),
            views(parts@) + words_acc(sv@.skip(i as int), sv@.subrange(start as int, i as int))
                == words(sv@),
        decreases sv.len() - i,
    {
        let ghost rest = sv@.skip(i as int);
        let ghost cur = sv@.subrange(start as int, i as int);
        proof {
            assert(rest.skip(1) =~= sv@.skip(i + 1));
            assert(rest[0] == sv@[i as int]);
        }
        if is_space_char(sv[i]) {
            if start < i {
                let piece = string_between(&sv, start, i);
                proof {
                    assert(views(parts@.push(piece)) =~= views(parts@) + seq![cur]);
                    assert(views(parts@) + (seq![cur] + words_acc(rest.skip(1), Seq::empty()))
                        =~= (views(parts@) + seq![cur]) + words_acc(rest.skip(1), Seq::empty()));
                }
                parts.push(piece);
            } else {
                proof {
                    assert(cur =~= Seq::<char>::empty());
                }
            }
            i = i + 1;
            start = i;
            proof {
                assert(sv@.subrange(start as int, i as int) =~= Seq::<char>::empty());
            }
        } else {
            proof {
                assert(cur.push(rest[0]) =~= sv@.subrange(start as int, i + 1));
            }
            i = i + 1;
        }
    }
    proof {
        assert(sv@.skip(sv@.len() as int).len() == 0);
    }
    if start < sv.len() {
        let piece = string_between(&sv, start, sv.len());
        proof {
            assert(views(parts@.push(piece)) =~= views(parts@) + seq![piece@]);
        }
        parts.push(piece);
    } else {
        proof {
            assert(sv@.subrange(start as int, sv@.len() as int).len() == 0);
            assert(views(parts@) + Seq::<Seq<char>>::empty() =~= views(parts@));
        }
    }
    parts
}

pub fn join(parts: &Vec<String>, sep: &str) -> (r: String)
    ensures
        r@ == join_with(views(parts@), sep@),
{
    let mut out = String::new();
    let mut i: usize = 0;
    proof {
        assert(views(parts@).take(0).len() == 0);
    }
    while i < parts.len()
        invariant
            i <= parts.len(),
            out@ == join_with(views(parts@).take(i as int), sep@),
        decreases parts.len() - i,
    {
        let ghost before = views(parts@).take(i as int);
        let ghost after = views(parts@).take(i + 1);
        proof {
            assert(after.drop_last() =~= before);
            assert(after.last() == parts@[i as int]@);
        }
        if i > 0 {
            out.append(sep);
        } else {
            proof {
                assert(out@ + parts@[i as int]@ =~= parts@[i as int]@);
            }
        }
        out.append(parts[i].as_str());
        i = i + 1;
    }
    proof {
        assert(views(parts@).take(parts@.len() as int) =~= views(parts@));
    }
    out
}

pub fn trim(s: &str) -> (r: String)
    ensures
        r@ == trimmed(s@),
{
    let sv = chars_of(s);
    let mut from: usize = 0;
    proof {
        assert(sv@.skip(0) =~= sv@);
    }
    while from < sv.len() && is_space_char(sv[from])
        invariant
            from <= sv.len(),
            trim_start(sv@.skip(from as int)) == trim_start(sv@),
        decreases sv.len() - from,
    {
        proof {
            assert(sv@.skip(from as int).skip(1) =~= sv@.skip(from + 1));
            assert(sv@.skip(from as int)[0] == sv@[from as int]);
        }
        from = from + 1;
    }
    proof {
        if from < sv.len() {
            assert(sv@.skip(from as int)[0] == sv@[from as int]);
        }
        assert(trim_start(sv@) == sv@.skip(from as int));
        assert(sv@.subrange(from as int, sv@.len() as int) =~= sv@.skip(from as int));
    }
    let mut to: usize = sv.len();
    while to > from && is_space_char(sv[to - 1])
        invariant
            from <= to <= sv.len(),
            trim_end(sv@.subrange(from as int, to as int)) == trim_end(sv@.skip(from as int)),
        decreases to,
    {
        proof {
            assert(sv@.subrange(from as int, to as int).drop_last() =~= sv@.subrange(
                from as int,
                to - 1,
            ));
            assert(sv@.subrange(from as int, to as int).last() == sv@[to - 1]);
        }
        to = to - 1;
    }
    proof {
        if to > from {
            assert(sv@.subrange(from as int, to as int).last() == sv@[to - 1]);
        }
    }
    string_between(&sv, from, to)
}

/// Replaces the last occurrence of `pattern` in `text`; the text is left as
/// it is where the pattern does not occur.
#[verifier::loop_isolation(false)]
pub fn right_replace_once(text: &str, pattern: &str, replacement: &str) -> (r: String)
    ensures
        r@ == right_replaced_once(text@, pattern@, replacement@),
{
    let sv = chars_of(text);
    let pv = chars_of(pattern);
    let mut i: usize = sv.len();
    loop
        invariant
            i <= sv.len(),
            last_occurrence(sv@, pv@, i as int) == last_occurrence(sv@, pv@, sv@.len() as int),
        decreases i,
    {
        if matches_at(&sv, i, &pv) {
            let left = string_between(&sv, 0, i);
            let right = string_between(&sv, i + pv.len(), sv.len());
            return concat3(left.as_str(), replacement, right.as_str());
        }
        if i == 0 {
            proof {
                assert(last_occurrence(sv@, pv@, -1) is None);
            }
            return string_of(&sv);
        }
        i = i - 1;
    }
}

#[verifier::loop_isolation(false)]
pub fn str_le(a: &str, b: &str) -> (r: bool)
    ensures
        r == lex_le(a@, b@),
{
    let av = chars_of(a);
    let bv = chars_of(b);
    let mut i: usize = 0;
    proof {
        assert(av@.skip(0) =~= av@);
        assert(bv@.skip(0) =~= bv@);
    }
    loop
        invariant
            i <= av.len(),
            i <= bv.len(),
            lex_le(av@.skip(i as int), bv@.skip(i as int)) == lex_le(av@, bv@),
        decreases av.len() - i,
    {
        if i == av.len() {
            return true;
        }
        if i == bv.len() {
            return false;
        }
        proof {
            assert(av@.skip(i as int).skip(1) =~= av@.skip(i + 1));
            assert(bv@.skip(i as int).skip(1) =~= bv@.skip(i + 1));
            assert(av@.skip(i as int)[0] == av@[i as int]);
            assert(bv@.skip(i as int)[0] == bv@[i as int]);
        }
        let x: u32 = av[i] as u32;
        let y: u32 = bv[i] as u32;
        if x != y {
            return x < y;
        }
        i = i + 1;
    }
}

pub fn u64_to_string(n: u64) -> (r: String)
    ensures
        r@ == decimal(n as nat),
{
    let mut digits: Vec<char> = Vec::new();
    let mut rest: u64 = n;
    // digits are produced from the right
    while rest >= 10
        invariant
            decimal(n as nat) == decimal(rest as nat) + digits@.reverse(),
        decreases rest,
    {
        let d: u8 = (rest % 10) as u8;
        let c: char = (48u8 + d) as char;
        proof {
            assert(c == digit_char((rest % 10) as nat));
            assert(decimal(rest as nat) == decimal((rest / 10) as nat).push(c));
            assert(digits@.push(c).reverse() =~= seq![c] + digits@.reverse());
            assert(decimal((rest / 10) as nat).push(c) + digits@.reverse() =~= decimal(
                (rest / 10) as nat,
            ) + (seq![c] + digits@.reverse()));
        }
        digits.push(c);
        rest = rest / 10;
    }
    let c: char = (48u8 + (rest as u8)) as char;
    let mut out: Vec<char> = Vec::new();
    out.push(c);
    let mut k: usize = digits.len();
    while k > 0
        invariant
            k <= digits.len(),
            out@ == seq![c] + digits@.reverse().take(digits@.len() - k),
        decreases k,
    {
        k = k - 1;
        proof {
            assert(digits@.reverse()[digits@.len() - 1 - k] == digits@[k as int]);
            assert(digits@.reverse().take(digits@.len() - k) =~= digits@.reverse().take(
                digits@.len() - k - 1,
            ).push(digits@[k as int]));
        }
        out.push(digits[k]);
    }
    proof {
        assert(c == digit_char(rest as nat));
        assert(digits@.reverse().take(digits@.len() as int) =~= digits@.reverse());
        assert(decimal(rest as nat) =~= seq![c]);
    }
    string_of(&out)
}

pub fn i64_to_string(n: i64) -> (r: String)
    ensures
        r@ == signed_decimal(n as int),
{
    if n < 0 {
        let magnitude: u64 = if n == i64::MIN {
            9223372036854775808u64
        } else {
            (-n) as u64
        };
        let digits = u64_to_string(magnitude);
        proof {
            reveal_strlit("-");
            assert("-"@ =~= seq!['-']);
        }
        concat2("-", digits.as_str())
    } else {
        u64_to_string(n as u64)
    }
}

pub fn pad3(n: u64) -> (r: String)
    ensures
        r@ == padded3(n as nat),
{
    let digits = u64_to_string(n);
    proof {
        reveal_strlit("00");
        reveal_strlit("0");
        assert("00"@ =~= seq!['0', '0']);
        assert("0"@ =~= seq!['0']);
    }
    if n < 10 {
        concat2("00", digits.as_str())
    } else if n < 100 {
        concat2("0", digits.as_str())
    } else {
        digits
    }
}

#[verifier::loop_isolation(false)]
pub fn parse_u32(s: &str) -> (r: Option<u32>)
    ensures
        r == parsed_u32(s@),
{
    let sv = chars_of(s);
    let start: usize = if sv.len() > 0 && sv[0] == '+' {
        1
    } else {
        0
    };
    let ghost body = sv@.skip(start as int);
    proof {
        assert(sv@.skip(0) =~= sv@);
    }
    if start == sv.len() {
        return None;
    }
    let mut value: u64 = 0;
    let mut i: usize = start;
    proof {
        assert(body.take(0).len() == 0);
    }
    while i < sv.len()
        invariant
            start <= i <= sv.len(),
            body == sv@.skip(start as int),
            all_digits(body.take(i - start)),
            value == digits_value(body.take(i - start)),
            value <= u32::MAX,
        decreases sv.len() - i,
    {
        let c: u32 = sv[i] as u32;
        let ghost before = body.take(i - start);
        let ghost after = body.take(i + 1 - start);
        proof {
            assert(after.drop_last() =~= before);
            assert(after.last() == sv@[i as int]);
            assert(body[i - start] == sv@[i as int]);
        }
        if c < 48 || c > 57 {
            proof {
                assert(!is_digit(body[i - start]));
            }
            return None;
        }
        let next: u64 = value * 10 + (c - 48) as u64;
        proof {
            assert(is_digit(after.last()));
            assert(next == digits_value(after));
        }
        if next > 0xFFFF_FFFF {
            proof {
                if all_digits(body) {
                    lemma_digits_value_grows(body, i + 1 - start);
                }
            }
            return None;
        }
        proof {
            assert forall|k: int| 0 <= k < after.len() implies is_digit(#[trigger] after[k]) by {
                if k < before.len() {
                    assert(after[k] == before[k]);
                }
            }
        }
        value = next;
        i = i + 1;
    }
    proof {
        assert(body.take(body.len() as int) =~= body);
    }
    Some(value as u32)
}

/// Each text comes before or is equal to every text after it.
pub open spec fn is_sorted(s: Seq<Seq<char>>) -> bool {
    forall|i: int, j: int| 0 <= i < j < s.len() ==> lex_le(#[trigger] s[i], #[trigger] s[j])
}

/// Of two texts one comes before the other, or they are equal.
pub proof fn lemma_lex_total(a: Seq<char>, b: Seq<char>)
    ensures
        lex_le(a, b) || lex_le(b, a),
    decreases a.len(),
{
    if a.len() > 0 && b.len() > 0 && a[0] as u32 == b[0] as u32 {
        lemma_lex_total(a.skip(1), b.skip(1));
    }
}

pub proof fn lemma_lex_transitive(a: Seq<char>, b: Seq<char>, c: Seq<char>)
    requires
        lex_le(a, b),
        lex_le(b, c),
    ensures
        lex_le(a, c),
    decreases a.len(),
{
    if a.len() > 0 && b.len() > 0 && c.len() > 0 && a[0] as u32 == b[0] as u32 && b[0] as u32
        == c[0] as u32 {
        lemma_lex_transitive(a.skip(1), b.skip(1), c.skip(1));
    }
}

/// The texts in ascending order: the same texts, each as often as before.
pub fn sorted_texts(v: &Vec<String>) -> (r: Vec<String>)
    ensures
        is_sorted(views(r@)),
        views(r@).to_multiset() == views(v@).to_multiset(),
        r@.len() == v@.len(),
        forall|t: Seq<char>| views(r@).contains(t) <==> views(v@).contains(t),
        views(v@).no_duplicates() ==> views(r@).no_duplicates(),
{
    let mut out: Vec<String> = Vec::new();
    let mut i: usize = 0;
    proof {
        assert(views(out@) =~= views(v@).take(0));
    }
    while i < v.len()
        invariant
            i <= v.len(),
            out@.len() == i,
            is_sorted(views(out@)),
            views(out@).to_multiset() == views(v@).take(i as int).to_multiset(),
        decreases v.len() - i,
    {
        let item = v[i].clone();
        let mut p: usize = 0;
        while p < out.len() && str_le(out[p].as_str(), item.as_str())
            invariant
                p <= out.len(),
                forall|k: int| 0 <= k < p ==> lex_le(#[trigger] views(out@)[k], item@),
            decreases out.len() - p,
        {
            p = p + 1;
        }
        let ghost before = views(out@);
        proof {
            assert(views(out@.insert(p as int, item)) =~= before.insert(p as int, item@));
            let after = before.insert(p as int, item@);
            assert forall|a: int, b: int| 0 <= a < b < after.len() implies lex_le(
                #[trigger] after[a],
                #[trigger] after[b],
            ) by {
                if b < p {
                    assert(after[a] == before[a] && after[b] == before[b]);
                } else if b == p {
                    assert(after[a] == before[a]);
                } else if a == p {
                    // the item comes before everything from its place on
                    assert(after[b] == before[b - 1]);
                    assert(!lex_le(before[p as int], item@));
                    lemma_lex_total(before[p as int], item@);
                    if b - 1 > p {
                        assert(lex_le(before[p as int], before[b - 1]));
                        lemma_lex_transitive(item@, before[p as int], before[b - 1]);
                    }
                } else if a < p {
                    assert(after[a] == before[a] && after[b] == before[b - 1]);
                } else {
                    assert(after[a] == before[a - 1] && after[b] == before[b - 1]);
                }
            }
            vstd::seq_lib::to_multiset_insert(before, p as int, item@);
            assert(views(v@).take(i + 1) =~= views(v@).take(i as int).push(item@));
            vstd::seq_lib::to_multiset_build(views(v@).take(i as int), item@);
        }
        out.insert(p, item);
        i = i + 1;
    }
    proof {
        assert(views(v@).take(v@.len() as int) =~= views(v@));
        assert forall|t: Seq<char>| views(out@).contains(t) <==> views(v@).contains(t) by {
            vstd::seq_lib::to_multiset_contains(views(out@), t);
            vstd::seq_lib::to_multiset_contains(views(v@), t);
        }
        if views(v@).no_duplicates() {
            views(v@).lemma_multiset_has_no_duplicates();
            views(out@).lemma_multiset_has_no_duplicates_conv();
        }
    }
    out
}

/// A number never gets smaller as digits are added to it.
pub proof fn lemma_digits_value_grows(s: Seq<char>, k: int)
    requires
        0 <= k <= s.len(),
        all_digits(s),
    ensures
        digits_value(s.take(k)) <= digits_value(s),
    decreases s.len() - k,
{
    if k < s.len() {
        lemma_digits_value_grows(s, k + 1);
        assert(s.take(k + 1).drop_last() =~= s.take(k));
        assert(is_digit(s[k]));
        assert(s.take(k + 1).last() == s[k]);
    } else {
        assert(s.take(k) =~= s);
    }
}

} // verus!
