//! Small string utilities shared by the tokenizer, the resolver and the
//! dispatcher: character classes, equality and concatenation of strings,
//! trimming, and decimal parsing of exit statuses.

use vstd::prelude::*;
use vstd::string::StrSliceExecFns;
use vstd::string::StringExecFns;

verus! {

/// Relies on `String::push`: appends the given character to the end of the string.
pub assume_specification[ String::push ](s: &mut String, ch: char)
    ensures
        final(s)@ == old(s)@.push(ch),
;

/// Separator whitespace: the blank characters that end a token and that
/// trimming removes.
pub open spec fn is_blank(c: char) -> bool {
    c == ' ' || c == '\t' || c == '\n' || c == '\r'
}

/// Executable test for `is_blank`.
pub fn is_blank_char(c: char) -> (r: bool)
    ensures
        r == is_blank(c),
{
    c == ' ' || c == '\t' || c == '\n' || c == '\r'
}

/// Character-for-character equality of two string slices.
pub fn str_eq(a: &str, b: &str) -> (r: bool)
    ensures
        r == (a@ == b@),
{
    let na = a.unicode_len();
    let nb = b.unicode_len();
    if na != nb {
        assert(a@ != b@) by {
            assert(a@.len() != b@.len());
        }
        return false;
    }
    let mut i: usize = 0;
    while i < na
        invariant
            na == a@.len(),
            na == b@.len(),
            i <= na,
            forall|j: int| 0 <= j < i ==> a@[j] == b@[j],
        decreases na - i,
    {
        if a.get_char(i) != b.get_char(i) {
            return false;
        }
        i += 1;
    }
    proof {
        assert(a@ =~= b@);
    }
    true
}

/// Concatenation of two string slices into a fresh `String`.
pub fn concat2(a: &str, b: &str) -> (r: String)
    ensures
        r@ == a@ + b@,
{
    let mut r = String::from_str(a);
    r.append(b);
    r
}

/// Concatenation of three string slices into a fresh `String`.
pub fn concat3(a: &str, b: &str, c: &str) -> (r: String)
    ensures
        r@ == a@ + b@ + c@,
{
    let mut r = String::from_str(a);
    r.append(b);
    r.append(c);
    r
}

/// The words of `items` joined with a single space between neighbours.
pub open spec fn joined(items: Seq<Seq<char>>) -> Seq<char>
    decreases items.len(),
{
    if items.len() == 0 {
        Seq::empty()
    } else if items.len() == 1 {
        items[0]
    } else {
        items[0] + " "@ + joined(items.skip(1))
    }
}

/// Joining one more word appends a space and the word (or is the word alone
/// when nothing came before).
proof fn lemma_joined_push(items: Seq<Seq<char>>, x: Seq<char>)
    ensures
        joined(items.push(x)) == if items.len() == 0 {
            x
        } else {
            joined(items) + " "@ + x
        },
    decreases items.len(),
{
    let p = items.push(x);
    if items.len() == 0 {
        assert(p.len() == 1);
        assert(p[0] == x);
    } else if items.len() == 1 {
        assert(p[0] == items[0]);
        assert(p.skip(1) =~= Seq::empty().push(x));
        assert(joined(p.skip(1)) == x);
    } else {
        assert(p[0] == items[0]);
        assert(p.skip(1) =~= items.skip(1).push(x));
        lemma_joined_push(items.skip(1), x);
        assert(items[0] + " "@ + (joined(items.skip(1)) + " "@ + x) =~= (items[0] + " "@
            + joined(items.skip(1))) + " "@ + x);
    }
}

/// Joins the words of `items` from position `from` on with single spaces.
pub fn join_with_spaces(items: &Vec<String>, from: usize) -> (r: String)
    requires
        from <= items@.len(),
    ensures
        r@ == joined(items.deep_view().skip(from as int)),
{
    let ghost dv = items.deep_view();
    let mut r = String::new();
    let mut i: usize = from;
    proof {
        assert(dv.subrange(from as int, from as int) =~= Seq::<Seq<char>>::empty());
    }
    while i < items.len()
        invariant
            from <= i <= items@.len(),
            dv == items.deep_view(),
            r@ == joined(dv.subrange(from as int, i as int)),
        decreases items@.len() - i,
    {
        if i > from {
            r.append(" ");
        }
        r.append(items[i].as_str());
        proof {
            assert(dv.subrange(from as int, i as int + 1) =~= dv.subrange(
                from as int,
                i as int,
            ).push(dv[i as int]));
            lemma_joined_push(dv.subrange(from as int, i as int), dv[i as int]);
            assert(dv[i as int] == items@[i as int]@);
        }
        i += 1;
    }
    proof {
        assert(dv.subrange(from as int, items@.len() as int) =~= dv.skip(from as int));
    }
    r
}

/// Copies the elements of `v` from position `from` on.
pub fn suffix_from(v: &Vec<String>, from: usize) -> (r: Vec<String>)
    requires
        from <= v@.len(),
    ensures
        r.deep_view() == v.deep_view().skip(from as int),
{
    let ghost dv = v.deep_view();
    let mut r: Vec<String> = Vec::new();
    let mut i: usize = from;
    proof {
        assert(r.deep_view() =~= dv.subrange(from as int, from as int));
    }
    while i < v.len()
        invariant
            from <= i <= v@.len(),
            dv == v.deep_view(),
            r.deep_view() == dv.subrange(from as int, i as int),
        decreases v@.len() - i,
    {
        let ghost before = r.deep_view();
        r.push(v[i].clone());
        proof {
            assert(r.deep_view() =~= before.push(dv[i as int]));
            assert(dv.subrange(from as int, i as int + 1) =~= dv.subrange(
                from as int,
                i as int,
            ).push(dv[i as int]));
        }
        i += 1;
    }
    proof {
        assert(dv.subrange(from as int, v@.len() as int) =~= dv.skip(from as int));
    }
    r
}

/// The input with leading blanks removed.
pub open spec fn drop_leading_blanks(s: Seq<char>) -> Seq<char>
    decreases s.len(),
{
    if s.len() > 0 && is_blank(s[0]) {
        drop_leading_blanks(s.skip(1))
    } else {
        s
    }
}

/// The input with trailing blanks removed.
pub open spec fn drop_trailing_blanks(s: Seq<char>) -> Seq<char>
    decreases s.len(),
{
    if s.len() > 0 && is_blank(s.last()) {
        drop_trailing_blanks(s.drop_last())
    } else {
        s
    }
}

/// The input with both leading and trailing blanks removed.
pub open spec fn trim_spec(s: Seq<char>) -> Seq<char> {
    drop_trailing_blanks(drop_leading_blanks(s))
}

proof fn lemma_drop_leading_at(s: Seq<char>, k: int)
    requires
        0 <= k <= s.len(),
        forall|j: int| 0 <= j < k ==> is_blank(#[trigger] s[j]),
        k < s.len() ==> !is_blank(s[k]),
    ensures
        drop_leading_blanks(s) == s.skip(k),
    decreases k,
{
    if k == 0 {
        assert(s.skip(0) =~= s);
    } else {
        assert(is_blank(s[0]));
        lemma_drop_leading_at(s.skip(1), k - 1);
        assert(s.skip(1).skip(k - 1) =~= s.skip(k));
    }
}

proof fn lemma_drop_trailing_at(s: Seq<char>, m: int)
    requires
        0 <= m <= s.len(),
        forall|j: int| m <= j < s.len() ==> is_blank(#[trigger] s[j]),
        m > 0 ==> !is_blank(s[m - 1]),
    ensures
        drop_trailing_blanks(s) == s.take(m),
    decreases s.len() - m,
{
    if m == s.len() {
        assert(s.take(m) =~= s);
    } else {
        assert(is_blank(s.last()));
        lemma_drop_trailing_at(s.drop_last(), m);
        assert(s.drop_last().take(m) =~= s.take(m));
    }
}

/// Removes leading and trailing blanks.
pub fn trim_blanks(s: &str) -> (r: String)
    ensures
        r@ == trim_spec(s@),
{
    let n = s.unicode_len();
    let mut lo: usize = 0;
    while lo < n && is_blank_char(s.get_char(lo))
        invariant
            n == s@.len(),
            lo <= n,
            forall|j: int| 0 <= j < lo ==> is_blank(#[trigger] s@[j]),
        decreases n - lo,
    {
        lo += 1;
    }
    let mut hi: usize = n;
    while hi > lo && is_blank_char(s.get_char(hi - 1))
        invariant
            n == s@.len(),
            lo <= hi <= n,
            forall|j: int| hi <= j < n ==> is_blank(#[trigger] s@[j]),
        decreases hi,
    {
        hi -= 1;
    }
    let piece = s.substring_char(lo, hi);
    proof {
        lemma_drop_leading_at(s@, lo as int);
        let t = s@.skip(lo as int);
        assert forall|j: int| hi - lo <= j < t.len() implies is_blank(#[trigger] t[j]) by {
            assert(t[j] == s@[lo + j]);
        }
        if hi > lo {
            assert(t[hi - lo - 1] == s@[hi - 1]);
        }
        lemma_drop_trailing_at(t, hi - lo as int);
        assert(t.take(hi - lo as int) =~= s@.subrange(lo as int, hi as int));
    }
    String::from_str(piece)
}

/// A decimal digit.
pub open spec fn is_digit(c: char) -> bool {
    '0' as u32 <= c as u32 && c as u32 <= '9' as u32
}

/// The value of one decimal digit.
pub open spec fn digit_val(c: char) -> int {
    c as u32 - '0' as u32
}

/// Holds when every character is a decimal digit.
pub open spec fn all_digits(s: Seq<char>) -> bool {
    forall|i: int| 0 <= i < s.len() ==> is_digit(#[trigger] s[i])
}

/// The value of a string of decimal digits, most significant first.
pub open spec fn digits_val(s: Seq<char>) -> int
    decreases s.len(),
{
    if s.len() == 0 {
        0
    } else {
        digits_val(s.drop_last()) * 10 + digit_val(s.last())
    }
}

/// A decimal integer literal: digits, optionally preceded by a minus sign.
pub open spec fn is_int_str(s: Seq<char>) -> bool {
    if s.len() == 0 {
        false
    } else if s[0] == '-' {
        s.len() >= 2 && all_digits(s.skip(1))
    } else {
        all_digits(s)
    }
}

/// The value of a decimal integer literal.
pub open spec fn int_str_val(s: Seq<char>) -> int {
    if s.len() > 0 && s[0] == '-' {
        -digits_val(s.skip(1))
    } else {
        digits_val(s)
    }
}

/// A decimal integer literal whose value fits in an `i32`.
pub open spec fn is_i32_str(s: Seq<char>) -> bool {
    is_int_str(s) && i32::MIN <= int_str_val(s) <= i32::MAX
}

proof fn lemma_digits_val_nonneg(s: Seq<char>)
    requires
        all_digits(s),
    ensures
        digits_val(s) >= 0,
    decreases s.len(),
{
    if s.len() > 0 {
        assert(all_digits(s.drop_last())) by {
            assert(forall|i: int| 0 <= i < s.len() - 1 ==> s.drop_last()[i] == s[i]);
        }
        lemma_digits_val_nonneg(s.drop_last());
        assert(is_digit(s.last()));
    }
}

/// Digits appended on the right never lower the value.
proof fn lemma_digits_val_prefix(s: Seq<char>, k: int)
    requires
        all_digits(s),
        0 <= k <= s.len(),
    ensures
        digits_val(s) >= digits_val(s.take(k)),
    decreases s.len() - k,
{
    if k == s.len() {
        assert(s.take(k) =~= s);
    } else {
        assert(all_digits(s.take(k)) && all_digits(s.take(k + 1))) by {
            assert(forall|i: int| 0 <= i < k + 1 ==> s.take(k + 1)[i] == s[i]);
            assert(forall|i: int| 0 <= i < k ==> s.take(k)[i] == s[i]);
        }
        assert(s.take(k + 1).drop_last() =~= s.take(k));
        assert(s.take(k + 1).last() == s[k]);
        lemma_digits_val_nonneg(s.take(k));
        assert(digits_val(s.take(k + 1)) >= digits_val(s.take(k)));
        lemma_digits_val_prefix(s, k + 1);
    }
}

/// Parses a decimal integer with an optional leading minus sign; `None` when
/// the string is not such a literal or its value does not fit in an `i32`.
pub fn parse_i32(s: &str) -> (r: Option<i32>)
    ensures
        match r {
            Some(v) => is_i32_str(s@) && v as int == int_str_val(s@),
            None => !is_i32_str(s@),
        },
{
    let n = s.unicode_len();
    if n == 0 {
        return None;
    }
    let neg = s.get_char(0) == '-';
    if neg && n == 1 {
        return None;
    }
    let start: usize = if neg { 1 } else { 0 };
    let ghost d = s@.skip(start as int);
    let mut acc: u64 = 0;
    let mut i: usize = start;
    proof {
        assert(s@.subrange(start as int, start as int) =~= Seq::<char>::empty());
    }
    while i < n
        invariant
            n == s@.len(),
            start <= i <= n,
            start < n,
            neg == (s@[0] == '-'),
            start as int == if neg { 1int } else { 0int },
            neg ==> n >= 2,
            d == s@.skip(start as int),
            all_digits(s@.subrange(start as int, i as int)),
            acc as int == digits_val(s@.subrange(start as int, i as int)),
            acc <= 0x8000_0000,
        decreases n - i,
    {
        let c = s.get_char(i);
        let u = c as u32;
        if u < '0' as u32 || u > '9' as u32 {
            proof {
                assert(d[i - start] == s@[i as int]);
                assert(!all_digits(d));
                if !neg {
                    assert(s@.skip(0) =~= s@);
                }
            }
            return None;
        }
        let ghost pre = s@.subrange(start as int, i as int);
        acc = acc * 10 + ((u - '0' as u32) as u64);
        proof {
            let ext = s@.subrange(start as int, i as int + 1);
            assert(ext.drop_last() =~= pre);
            assert(ext.last() == s@[i as int]);
            assert(forall|j: int| 0 <= j < ext.len() ==> ext[j] == s@[start + j]);
        }
        if acc > 0x8000_0000 {
            proof {
                let done = s@.subrange(start as int, i as int + 1);
                if all_digits(d) {
                    assert(done =~= d.take(i + 1 - start));
                    lemma_digits_val_prefix(d, i + 1 - start);
                    assert(digits_val(d) > 0x8000_0000);
                    if neg {
                        assert(int_str_val(s@) == -digits_val(d));
                    } else {
                        assert(s@.skip(0) =~= s@);
                        assert(int_str_val(s@) == digits_val(d));
                    }
                }
            }
            return None;
        }
        i += 1;
    }
    proof {
        assert(s@.subrange(start as int, n as int) =~= d);
        if neg {
            assert(is_int_str(s@));
            assert(int_str_val(s@) == -(acc as int));
        } else {
            assert(s@.skip(0) =~= s@);
            assert(is_int_str(s@));
            assert(int_str_val(s@) == acc as int);
        }
    }
    if neg {
        if acc == 0x8000_0000 {
            Some(i32::MIN)
        } else {
            Some(-(acc as i32))
        }
    } else {
        if acc > 0x7FFF_FFFF {
            return None;
        }
        Some(acc as i32)
    }
}

} // verus!
