//! String utilities shared by the storage logic: lexicographic ordering of
//! character sequences (the order JSON object keys are sorted in), equality
//! tests, and the slug derivation used to name page files.

use vstd::prelude::*;

verus! {

/// Strict lexicographic order on character sequences, by Unicode scalar value.
/// A proper prefix sorts before any of its extensions.
pub open spec fn str_lt(a: Seq<char>, b: Seq<char>) -> bool
    decreases a.len() + b.len(),
{
    if b.len() == 0 {
        false
    } else if a.len() == 0 {
        true
    } else if (a[0] as int) < (b[0] as int) {
        true
    } else if (b[0] as int) < (a[0] as int) {
        false
    } else {
        str_lt(a.drop_first(), b.drop_first())
    }
}

/// Reflexive closure of [`str_lt`].
pub open spec fn str_le(a: Seq<char>, b: Seq<char>) -> bool {
    str_lt(a, b) || a == b
}

/// When the first `i` characters agree, the order is decided by the tails.
pub proof fn lemma_str_lt_skip(a: Seq<char>, b: Seq<char>, i: int)
    requires
        0 <= i <= a.len(),
        i <= b.len(),
        forall|j: int| 0 <= j < i ==> a[j] == b[j],
    ensures
        str_lt(a, b) == str_lt(a.skip(i), b.skip(i)),
    decreases i,
{
    if i > 0 {
        assert(a.drop_first().skip(i - 1) =~= a.skip(i));
        assert(b.drop_first().skip(i - 1) =~= b.skip(i));
        assert((a[0] as int) == (b[0] as int));
        lemma_str_lt_skip(a.drop_first(), b.drop_first(), i - 1);
    } else {
        assert(a.skip(0) =~= a);
        assert(b.skip(0) =~= b);
    }
}

/// The lexicographic order is total: two sequences compare one way, the
/// other way, or are equal.
pub proof fn lemma_str_lt_total(a: Seq<char>, b: Seq<char>)
    ensures
        str_lt(a, b) || str_lt(b, a) || a == b,
    decreases a.len() + b.len(),
{
    if b.len() == 0 {
        if a.len() == 0 {
            assert(a =~= b);
        }
    } else if a.len() > 0 {
        if (a[0] as int) == (b[0] as int) {
            assert(a[0] == b[0]);
            lemma_str_lt_total(a.drop_first(), b.drop_first());
            if a.drop_first() == b.drop_first() {
                assert(a.drop_first().len() == a.len() - 1);
                assert(b.drop_first().len() == b.len() - 1);
                assert(a.len() == b.len());
                assert forall|k: int| 0 <= k < a.len() implies a[k] == b[k] by {
                    if k > 0 {
                        assert(a[k] == a.drop_first()[k - 1]);
                        assert(b[k] == b.drop_first()[k - 1]);
                    }
                }
                assert(a =~= b);
            }
        }
    }
}

/// The strict lexicographic order is transitive.
pub proof fn lemma_str_lt_trans(a: Seq<char>, b: Seq<char>, c: Seq<char>)
    requires
        str_lt(a, b),
        str_lt(b, c),
    ensures
        str_lt(a, c),
    decreases a.len() + b.len() + c.len(),
{
    if a.len() > 0 && b.len() > 0 && c.len() > 0 {
        if (a[0] as int) == (b[0] as int) && (b[0] as int) == (c[0] as int) {
            lemma_str_lt_trans(a.drop_first(), b.drop_first(), c.drop_first());
        }
    }
}

/// The reflexive lexicographic order is transitive.
pub proof fn lemma_str_le_trans(a: Seq<char>, b: Seq<char>, c: Seq<char>)
    requires
        str_le(a, b),
        str_le(b, c),
    ensures
        str_le(a, c),
{
    if a == b || b == c {
    } else {
        lemma_str_lt_trans(a, b, c);
    }
}

/// Character-sequence equality, decided by one pass.
pub fn str_eq(a: &str, b: &str) -> (r: bool)
    ensures
        r == (a@ == b@),
{
    let la: usize = a.unicode_len();
    let lb: usize = b.unicode_len();
    if la != lb {
        return false;
    }
    let mut i: usize = 0;
    while i < la
        invariant
            i <= la,
            la == a@.len(),
            la == lb,
            lb == b@.len(),
            forall|j: int| 0 <= j < i ==> a@[j] == b@[j],
        decreases la - i,
    {
        let ca: char = a.get_char(i);
        let cb: char = b.get_char(i);
        if ca != cb {
            return false;
        }
        i = i + 1;
    }
    proof {
        assert(a@ =~= b@);
    }
    true
}

/// Strict lexicographic comparison, decided by one pass.
pub fn str_lt_exec(a: &str, b: &str) -> (r: bool)
    ensures
        r == str_lt(a@, b@),
{
    let la: usize = a.unicode_len();
    let lb: usize = b.unicode_len();
    let mut i: usize = 0;
    while i < la && i < lb
        invariant
            i <= la,
            i <= lb,
            la == a@.len(),
            lb == b@.len(),
            forall|j: int| 0 <= j < i ==> a@[j] == b@[j],
        decreases la - i,
    {
        let ca: char = a.get_char(i);
        let cb: char = b.get_char(i);
        if (ca as u32) < (cb as u32) {
            proof {
                assert((ca as int) < (cb as int));
                lemma_str_lt_skip(a@, b@, i as int);
            }
            return true;
        }
        if (cb as u32) < (ca as u32) {
            proof {
                assert((cb as int) < (ca as int));
                lemma_str_lt_skip(a@, b@, i as int);
            }
            return false;
        }
        i = i + 1;
    }
    proof {
        lemma_str_lt_skip(a@, b@, i as int);
    }
    la < lb
}

/// Reflexive lexicographic comparison on owned strings.
pub fn str_le_exec(a: &String, b: &String) -> (r: bool)
    ensures
        r == str_le(a@, b@),
{
    if a.eq(b) {
        true
    } else {
        str_lt_exec(a.as_str(), b.as_str())
    }
}

/// Relies on `String::push`: appends one character at the end of the string.
#[verifier::external_body]
pub fn push_char(s: &mut String, c: char)
    ensures
        final(s)@ == old(s)@.push(c),
{
    s.push(c);
}

/// The character sequence `str::to_lowercase` produces for a given input.
/// The mapping depends on the input characters alone, so it is given a name
/// rather than a definition.
pub uninterp spec fn lower_of(s: Seq<char>) -> Seq<char>;

/// Relies on `str::to_lowercase`: the result is a function of the input
/// characters alone; an empty input yields an empty result.
#[verifier::external_body]
pub fn lowercase(s: &str) -> (r: String)
    ensures
        r@ == lower_of(s@),
        s@.len() == 0 ==> r@.len() == 0,
{
    s.to_lowercase()
}

/// Whether `char::is_alphanumeric` holds of a character.  The classification
/// is a fixed property of the character, so it is named, not defined.
pub uninterp spec fn is_alnum_char(c: char) -> bool;

/// Relies on `char::is_alphanumeric`: a fixed classification of the character.
#[verifier::external_body]
pub fn char_is_alphanumeric(c: char) -> (r: bool)
    ensures
        r == is_alnum_char(c),
{
    c.is_alphanumeric()
}

/// Every character that is not alphanumeric becomes a dash.
pub open spec fn dashed(s: Seq<char>) -> Seq<char> {
    s.map_values(|c: char| if is_alnum_char(c) { c } else { '-' })
}

/// Drop every leading dash.
pub open spec fn trim_leading_dashes(s: Seq<char>) -> Seq<char>
    decreases s.len(),
{
    if s.len() > 0 && s[0] == '-' {
        trim_leading_dashes(s.drop_first())
    } else {
        s
    }
}

/// Drop every trailing dash.
pub open spec fn trim_trailing_dashes(s: Seq<char>) -> Seq<char>
    decreases s.len(),
{
    if s.len() > 0 && s[s.len() - 1] == '-' {
        trim_trailing_dashes(s.drop_last())
    } else {
        s
    }
}

/// Drop leading and trailing dashes.
pub open spec fn trim_dashes(s: Seq<char>) -> Seq<char> {
    trim_trailing_dashes(trim_leading_dashes(s))
}

pub proof fn lemma_trim_leading_at(s: Seq<char>, k: int)
    requires
        0 <= k <= s.len(),
        forall|j: int| 0 <= j < k ==> s[j] == '-',
        k == s.len() || s[k] != '-',
    ensures
        trim_leading_dashes(s) =~= s.skip(k),
    decreases k,
{
    if k > 0 {
        assert(s[0] == '-');
        assert(s.drop_first().skip(k - 1) =~= s.skip(k));
        lemma_trim_leading_at(s.drop_first(), k - 1);
    } else {
        assert(s.skip(0) =~= s);
        if s.len() > 0 {
            assert(s[0] != '-');
        }
    }
}

pub proof fn lemma_trim_trailing_at(s: Seq<char>, k: int)
    requires
        0 <= k <= s.len(),
        forall|j: int| k <= j < s.len() ==> s[j] == '-',
        k == 0 || s[k - 1] != '-',
    ensures
        trim_trailing_dashes(s) =~= s.take(k),
    decreases s.len() - k,
{
    if k < s.len() {
        assert(s[s.len() - 1] == '-');
        assert(s.drop_last() =~= s.take(s.len() - 1));
        assert(s.drop_last().take(k) =~= s.take(k));
        lemma_trim_trailing_at(s.drop_last(), k);
    } else {
        assert(s.take(s.len() as int) =~= s);
    }
}

/// The slug of a page name: the lowercased name with every non-alphanumeric
/// character replaced by a dash, then stripped of leading and trailing dashes.
pub open spec fn spec_slug(name: Seq<char>) -> Seq<char> {
    trim_dashes(dashed(lower_of(name)))
}

/// Derive the slug of a page name.
pub fn slug_of(name: &str) -> (r: String)
    ensures
        r@ == spec_slug(name@),
{
    let low: String = lowercase(name);
    let n: usize = low.as_str().unicode_len();
    let mut buf: Vec<char> = Vec::new();
    let mut i: usize = 0;
    while i < n
        invariant
            i <= n,
            n == low@.len(),
            buf@ =~= dashed(low@).take(i as int),
        decreases n - i,
    {
        let c: char = low.as_str().get_char(i);
        if char_is_alphanumeric(c) {
            buf.push(c);
        } else {
            buf.push('-');
        }
        proof {
            assert(buf@ =~= dashed(low@).take(i + 1));
        }
        i = i + 1;
    }
    proof {
        assert(buf@ =~= dashed(low@));
    }
    let mut lo: usize = 0;
    while lo < n && buf[lo] == '-'
        invariant
            lo <= n,
            n == buf@.len(),
            forall|j: int| 0 <= j < lo ==> buf@[j] == '-',
        decreases n - lo,
    {
        lo = lo + 1;
    }
    let mut hi: usize = n;
    while hi > lo && buf[hi - 1] == '-'
        invariant
            lo <= hi <= n,
            n == buf@.len(),
            forall|j: int| hi <= j < n ==> buf@[j] == '-',
        decreases hi,
    {
        hi = hi - 1;
    }
    let mut r: String = String::new();
    let mut k: usize = lo;
    while k < hi
        invariant
            lo <= k <= hi <= n,
            n == buf@.len(),
            r@ =~= buf@.subrange(lo as int, k as int),
        decreases hi - k,
    {
        push_char(&mut r, buf[k]);
        proof {
            assert(r@ =~= buf@.subrange(lo as int, k + 1));
        }
        k = k + 1;
    }
    proof {
        lemma_trim_leading_at(buf@, lo as int);
        if hi == lo {
            lemma_trim_trailing_at(buf@.skip(lo as int), 0);
        } else {
            lemma_trim_trailing_at(buf@.skip(lo as int), hi - lo);
        }
        assert(buf@.skip(lo as int).take(hi - lo) =~= buf@.subrange(lo as int, hi as int));
        assert(r@ =~= trim_dashes(buf@));
    }
    r
}

/// Append one string to another, in place.
pub fn append_str(s: &mut String, t: &str)
    ensures
        final(s)@ == old(s)@ + t@,
{
    s.append(t);
}

/// Concatenate two string slices.
pub fn concat2(a: &str, b: &str) -> (r: String)
    ensures
        r@ == a@ + b@,
{
    let mut r: String = a.to_owned();
    r.append(b);
    r
}

/// The character of a decimal digit.
pub open spec fn digit_char(d: nat) -> char {
    if d == 0 {
        '0'
    } else if d == 1 {
        '1'
    } else if d == 2 {
        '2'
    } else if d == 3 {
        '3'
    } else if d == 4 {
        '4'
    } else if d == 5 {
        '5'
    } else if d == 6 {
        '6'
    } else if d == 7 {
        '7'
    } else if d == 8 {
        '8'
    } else {
        '9'
    }
}

/// The decimal rendering of a number, most significant digit first.
pub open spec fn spec_digits(n: nat) -> Seq<char>
    decreases n,
{
    if n < 10 {
        seq![digit_char(n)]
    } else {
        spec_digits(n / 10).push(digit_char(n % 10))
    }
}

/// The character of one decimal digit.
fn digit_char_exec(d: usize) -> (c: char)
    requires
        d < 10,
    ensures
        c == digit_char(d as nat),
{
    match d {
        0 => '0',
        1 => '1',
        2 => '2',
        3 => '3',
        4 => '4',
        5 => '5',
        6 => '6',
        7 => '7',
        8 => '8',
        _ => '9',
    }
}

/// Render a number in decimal.
pub fn usize_to_string(n: usize) -> (r: String)
    ensures
        r@ == spec_digits(n as nat),
    decreases n,
{
    let d: usize = n % 10;
    let c: char = digit_char_exec(d);
    if n < 10 {
        let mut r: String = String::new();
        push_char(&mut r, c);
        proof {
            assert(r@ =~= seq![digit_char(n as nat)]);
        }
        r
    } else {
        let mut r: String = usize_to_string(n / 10);
        push_char(&mut r, c);
        r
    }
}

/// The model of a sequence of strings.
pub open spec fn strs_view(s: Seq<String>) -> Seq<Seq<char>> {
    Seq::new(s.len(), |i: int| s[i]@)
}

/// The model of a sequence of optional strings.
pub open spec fn opt_strs_view(s: Seq<Option<String>>) -> Seq<Option<Seq<char>>> {
    Seq::new(
        s.len(),
        |i: int|
            match s[i] {
                Option::Some(x) => Option::Some(x@),
                Option::None => Option::None,
            },
    )
}

/// Does `s` end with the suffix `t`?
pub open spec fn spec_ends_with(s: Seq<char>, t: Seq<char>) -> bool {
    s.len() >= t.len() && s.skip(s.len() - t.len()) == t
}

/// Decide whether `s` ends with the suffix `t`.
pub fn ends_with(s: &str, t: &str) -> (r: bool)
    ensures
        r == spec_ends_with(s@, t@),
{
    let ls: usize = s.unicode_len();
    let lt: usize = t.unicode_len();
    if ls < lt {
        return false;
    }
    let tail: &str = s.substring_char(ls - lt, ls);
    proof {
        assert(tail@ =~= s@.skip(s@.len() - t@.len()));
    }
    str_eq(tail, t)
}

/// Does `s` start with the prefix `t`?
pub open spec fn spec_starts_with(s: Seq<char>, t: Seq<char>) -> bool {
    s.len() >= t.len() && s.take(t.len() as int) == t
}

/// Decide whether `s` starts with the prefix `t`.
pub fn starts_with(s: &str, t: &str) -> (r: bool)
    ensures
        r == spec_starts_with(s@, t@),
{
    let ls: usize = s.unicode_len();
    let lt: usize = t.unicode_len();
    if ls < lt {
        return false;
    }
    let head: &str = s.substring_char(0, lt);
    proof {
        assert(head@ =~= s@.take(t@.len() as int));
    }
    str_eq(head, t)
}

/// The character sequence with every leading slash removed.
pub open spec fn spec_trim_leading_slashes(s: Seq<char>) -> Seq<char>
    decreases s.len(),
{
    if s.len() > 0 && s[0] == '/' {
        spec_trim_leading_slashes(s.drop_first())
    } else {
        s
    }
}

/// Remove every leading slash, as `str::trim_start_matches('/')` does.
pub fn trim_leading_slashes(s: &str) -> (r: String)
    ensures
        r@ == spec_trim_leading_slashes(s@),
{
    let n: usize = s.unicode_len();
    let mut lo: usize = 0;
    while lo < n && s.get_char(lo) == '/'
        invariant
            lo <= n,
            n == s@.len(),
            forall|j: int| 0 <= j < lo ==> s@[j] == '/',
        decreases n - lo,
    {
        lo = lo + 1;
    }
    let tail: &str = s.substring_char(lo, n);
    proof {
        lemma_trim_leading_slashes_at(s@, lo as int);
        assert(tail@ =~= s@.skip(lo as int));
    }
    tail.to_owned()
}

pub proof fn lemma_trim_leading_slashes_at(s: Seq<char>, k: int)
    requires
        0 <= k <= s.len(),
        forall|j: int| 0 <= j < k ==> s[j] == '/',
        k == s.len() || s[k] != '/',
    ensures
        spec_trim_leading_slashes(s) =~= s.skip(k),
    decreases k,
{
    if k > 0 {
        assert(s[0] == '/');
        assert(s.drop_first().skip(k - 1) =~= s.skip(k));
        lemma_trim_leading_slashes_at(s.drop_first(), k - 1);
    } else {
        assert(s.skip(0) =~= s);
        if s.len() > 0 {
            assert(s[0] != '/');
        }
    }
}

} // verus!
