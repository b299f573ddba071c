//! Text primitives shared by every module: Unicode whitespace trimming,
//! blank tests and string equality, stated over `Seq<char>` views.

use vstd::prelude::*;

verus! {

/// Unicode `White_Space` property (the set `char::is_whitespace` uses).
pub open spec fn is_ws(c: char) -> bool {
    ||| ('\u{9}' <= c && c <= '\u{d}')
    ||| c == ' '
    ||| c == '\u{85}'
    ||| c == '\u{a0}'
    ||| c == '\u{1680}'
    ||| ('\u{2000}' <= c && c <= '\u{200a}')
    ||| c == '\u{2028}'
    ||| c == '\u{2029}'
    ||| c == '\u{202f}'
    ||| c == '\u{205f}'
    ||| c == '\u{3000}'
}

/// Drop leading whitespace.
pub open spec fn trim_start(s: Seq<char>) -> Seq<char>
    decreases s.len(),
{
    if s.len() > 0 && is_ws(s[0]) {
        trim_start(s.drop_first())
    } else {
        s
    }
}

/// Drop trailing whitespace.
pub open spec fn trim_end(s: Seq<char>) -> Seq<char>
    decreases s.len(),
{
    if s.len() > 0 && is_ws(s.last()) {
        trim_end(s.drop_last())
    } else {
        s
    }
}

/// Leading and trailing whitespace removed (what `str::trim` gives).
pub open spec fn trim(s: Seq<char>) -> Seq<char> {
    trim_end(trim_start(s))
}

/// True when the text holds nothing but whitespace.
pub open spec fn is_blank(s: Seq<char>) -> bool {
    trim(s).len() == 0
}

/// The characters of a string, in order.
pub fn chars_of(s: &str) -> (v: Vec<char>)
    ensures
        v@ == s@,
{
    let n = s.unicode_len();
    let mut v: Vec<char> = Vec::new();
    let mut i: usize = 0;
    while i < n
        invariant
            n == s@.len(),
            i <= n,
            v@ == s@.subrange(0, i as int),
        decreases n - i,
    {
        let c = s.get_char(i);
        v.push(c);
        i = i + 1;
        assert(v@ =~= s@.subrange(0, i as int));
    }
    assert(v@ =~= s@);
    v
}

/// Executable form of [`is_ws`].
pub fn char_is_ws(c: char) -> (b: bool)
    ensures
        b == is_ws(c),
{
    ('\u{9}' <= c && c <= '\u{d}') || c == ' ' || c == '\u{85}' || c == '\u{a0}' || c
        == '\u{1680}' || ('\u{2000}' <= c && c <= '\u{200a}') || c == '\u{2028}' || c
        == '\u{2029}' || c == '\u{202f}' || c == '\u{205f}' || c == '\u{3000}'
}

proof fn lemma_trim_start_step(s: Seq<char>, i: int)
    requires
        0 <= i < s.len(),
        is_ws(s[i]),
    ensures
        trim_start(s.subrange(i, s.len() as int)) == trim_start(s.subrange(i + 1, s.len() as int)),
{
    let t = s.subrange(i, s.len() as int);
    assert(t.drop_first() =~= s.subrange(i + 1, s.len() as int));
}

proof fn lemma_trim_end_step(s: Seq<char>, i: int, j: int)
    requires
        0 <= i < j <= s.len(),
        is_ws(s[j - 1]),
    ensures
        trim_end(s.subrange(i, j)) == trim_end(s.subrange(i, j - 1)),
{
    let t = s.subrange(i, j);
    assert(t.drop_last() =~= s.subrange(i, j - 1));
}

/// Index range `[start, end)` of the trimmed text inside `s`.
fn trim_bounds(c: &Vec<char>) -> (r: (usize, usize))
    ensures
        r.0 <= r.1 <= c@.len(),
        trim(c@) == c@.subrange(r.0 as int, r.1 as int),
{
    let n = c.len();
    let mut i: usize = 0;
    assert(c@.subrange(0, n as int) =~= c@);
    while i < n && char_is_ws(c[i])
        invariant
            n == c@.len(),
            i <= n,
            trim_start(c@) == trim_start(c@.subrange(i as int, n as int)),
        decreases n - i,
    {
        proof {
            lemma_trim_start_step(c@, i as int);
        }
        i = i + 1;
    }
    let ghost st = c@.subrange(i as int, n as int);
    assert(trim_start(st) == st);
    let mut j: usize = n;
    while j > i && char_is_ws(c[j - 1])
        invariant
            n == c@.len(),
            i <= j <= n,
            trim(c@) == trim_end(c@.subrange(i as int, j as int)),
        decreases j,
    {
        proof {
            lemma_trim_end_step(c@, i as int, j as int);
        }
        j = j - 1;
    }
    (i, j)
}

/// `str::trim`: the text with leading and trailing whitespace removed.
pub fn trim_str(s: &str) -> (r: &str)
    ensures
        r@ == trim(s@),
{
    let c = chars_of(s);
    let (i, j) = trim_bounds(&c);
    s.substring_char(i, j)
}

/// `s.trim().is_empty()`.
pub fn blank(s: &str) -> (b: bool)
    ensures
        b == is_blank(s@),
{
    let c = chars_of(s);
    let (i, j) = trim_bounds(&c);
    i == j
}

/// Character-wise equality of two strings.
pub fn str_eq(a: &str, b: &str) -> (r: bool)
    ensures
        r == (a@ == b@),
{
    let x = chars_of(a);
    let y = chars_of(b);
    if x.len() != y.len() {
        return false;
    }
    let mut i: usize = 0;
    while i < x.len()
        invariant
            x@ == a@,
            y@ == b@,
            x@.len() == y@.len(),
            i <= x@.len(),
            forall|k: int| 0 <= k < i ==> x@[k] == y@[k],
        decreases x.len() - i,
    {
        if x[i] != y[i] {
            return false;
        }
        i = i + 1;
    }
    assert(a@ =~= b@);
    true
}


/// `String::push`: appends one character.
#[verifier::external_body]
pub(crate) fn push_char(s: &mut String, c: char)
    ensures
        final(s)@ == old(s)@.push(c),
{
    s.push(c);
}

/// ASCII lowercase mapping (`char::to_ascii_lowercase`): `A`..`Z` to `a`..`z`,
/// every other character unchanged.
pub open spec fn ascii_lower(c: char) -> char {
    if 'A' <= c && c <= 'Z' {
        ((c as u32) + 32) as char
    } else {
        c
    }
}

/// ASCII lowercase of a character (see [`ascii_lower`]).
pub(crate) fn to_ascii_lower(c: char) -> (r: char)
    ensures
        r == ascii_lower(c),
{
    if 'A' <= c && c <= 'Z' {
        let b: u8 = c as u8;
        assert(b == c as u32);
        let l: u8 = b + 32;
        l as char
    } else {
        c
    }
}

/// Language separators of a BCP-47 / POSIX locale.
pub open spec fn is_locale_sep(c: char) -> bool {
    c == '-' || c == '_'
}

/// Lowercased characters up to the first `-` or `_`.
pub open spec fn lower_prefix(s: Seq<char>) -> Seq<char>
    decreases s.len(),
{
    if s.len() == 0 || is_locale_sep(s[0]) {
        Seq::empty()
    } else {
        seq![ascii_lower(s[0])] + lower_prefix(s.drop_first())
    }
}

/// Short language code of a locale: `fr-FR` and `FR` give `fr`, `en_GB` gives
/// `en`; a blank locale, or one whose base is blank, gives `fr`.
pub open spec fn lang_code_of(locale: Seq<char>) -> Seq<char> {
    let t = trim(locale);
    let base = trim(lower_prefix(t));
    if t.len() == 0 || base.len() == 0 {
        "fr"@
    } else {
        base
    }
}

proof fn lemma_lower_prefix_step(s: Seq<char>, i: int)
    requires
        0 <= i < s.len(),
        forall|k: int| 0 <= k <= i ==> !is_locale_sep(s[k]),
    ensures
        lower_prefix(s.subrange(0, i + 1)) == lower_prefix(s.subrange(0, i)).push(
            ascii_lower(s[i]),
        ),
    decreases i,
{
    let a = s.subrange(0, i + 1);
    if i == 0 {
        assert(a.drop_first() =~= Seq::<char>::empty());
        assert(lower_prefix(Seq::<char>::empty()) =~= Seq::<char>::empty());
        assert(lower_prefix(s.subrange(0, 0)) =~= Seq::<char>::empty());
        assert(lower_prefix(a) =~= seq![ascii_lower(s[0])]);
    } else {
        let t = s.drop_first();
        lemma_lower_prefix_step(t, i - 1);
        assert(a.drop_first() =~= t.subrange(0, i));
        assert(s.subrange(0, i).drop_first() =~= t.subrange(0, i - 1));
        assert(lower_prefix(a) =~= seq![ascii_lower(s[0])] + lower_prefix(t.subrange(0, i)));
        assert(lower_prefix(s.subrange(0, i)) =~= seq![ascii_lower(s[0])] + lower_prefix(
            t.subrange(0, i - 1),
        ));
    }
}

proof fn lemma_lower_prefix_stop(s: Seq<char>, i: int)
    requires
        0 <= i <= s.len(),
        i < s.len() ==> is_locale_sep(s[i]),
        forall|k: int| 0 <= k < i ==> !is_locale_sep(s[k]),
    ensures
        lower_prefix(s) == lower_prefix(s.subrange(0, i)),
    decreases i,
{
    if i == 0 {
        assert(lower_prefix(s.subrange(0, 0)) =~= Seq::<char>::empty());
        if s.len() > 0 {
            assert(lower_prefix(s) =~= Seq::<char>::empty());
        }
    } else {
        let t = s.drop_first();
        lemma_lower_prefix_stop(t, i - 1);
        assert(s.subrange(0, i).drop_first() =~= t.subrange(0, i - 1));
    }
}

/// Short language code of a locale (`fr-FR` to `fr`, `en_US` to `en`,
/// blank to `fr`).
pub fn lang_code(locale: &str) -> (r: String)
    ensures
        r@ == lang_code_of(locale@),
{
    let t = trim_str(locale);
    let c = chars_of(t);
    let mut lower = String::new();
    let mut i: usize = 0;
    while i < c.len() && !(c[i] == '-' || c[i] == '_')
        invariant
            c@ == trim(locale@),
            i <= c@.len(),
            forall|k: int| 0 <= k < i ==> !is_locale_sep(c@[k]),
            lower@ == lower_prefix(c@.subrange(0, i as int)),
        decreases c.len() - i,
    {
        proof {
            lemma_lower_prefix_step(c@, i as int);
        }
        let l = to_ascii_lower(c[i]);
        push_char(&mut lower, l);
        i = i + 1;
    }
    proof {
        lemma_lower_prefix_stop(c@, i as int);
    }
    let base = trim_str(lower.as_str());
    if c.len() == 0 || base.unicode_len() == 0 {
        "fr".to_owned()
    } else {
        base.to_owned()
    }
}


proof fn lemma_trim_start_shape(s: Seq<char>) -> (k: int)
    ensures
        0 <= k <= s.len(),
        trim_start(s) == s.subrange(k, s.len() as int),
        k < s.len() ==> !is_ws(s[k]),
    decreases s.len(),
{
    if s.len() > 0 && is_ws(s[0]) {
        let k = lemma_trim_start_shape(s.drop_first());
        assert(s.drop_first().subrange(k, s.len() - 1) =~= s.subrange(k + 1, s.len() as int));
        k + 1
    } else {
        assert(s.subrange(0, s.len() as int) =~= s);
        0
    }
}

proof fn lemma_trim_end_shape(s: Seq<char>) -> (k: int)
    ensures
        0 <= k <= s.len(),
        trim_end(s) == s.subrange(0, k),
        k > 0 ==> !is_ws(s[k - 1]),
        s.len() > 0 && !is_ws(s[0]) ==> k > 0,
    decreases s.len(),
{
    if s.len() > 0 && is_ws(s.last()) {
        let k = lemma_trim_end_shape(s.drop_last());
        assert(s.drop_last().subrange(0, k) =~= s.subrange(0, k));
        k
    } else {
        assert(s.subrange(0, s.len() as int) =~= s);
        s.len() as int
    }
}

/// The trimmed text is a piece of the text, and trimming it again changes
/// nothing.
pub proof fn lemma_trim_shape(s: Seq<char>)
    ensures
        trim(trim(s)) == trim(s),
        exists|i: int, j: int| 0 <= i <= j <= s.len() && trim(s) == s.subrange(i, j),
        trim(s).len() > 0 ==> !is_ws(trim(s)[0]) && !is_ws(trim(s).last()),
{
    let i = lemma_trim_start_shape(s);
    let u = trim_start(s);
    let j = lemma_trim_end_shape(u);
    let t = trim(s);
    assert(t =~= s.subrange(i, i + j));
    if t.len() > 0 {
        assert(t[0] == u[0]);
        assert(t.last() == u[j - 1]);
        assert(trim_start(t) == t);
        assert(trim_end(t) == t);
    } else {
        assert(trim_start(t) == t);
    }
}

/// Characters of a language code: no separator, no ASCII capital.
pub open spec fn is_code_char(c: char) -> bool {
    !is_locale_sep(c) && !('A' <= c && c <= 'Z')
}

proof fn lemma_lower_prefix_chars(s: Seq<char>)
    ensures
        forall|k: int| 0 <= k < lower_prefix(s).len() ==> is_code_char(#[trigger] lower_prefix(s)[k]),
    decreases s.len(),
{
    if s.len() > 0 && !is_locale_sep(s[0]) {
        lemma_lower_prefix_chars(s.drop_first());
        let r = lower_prefix(s);
        assert forall|k: int| 0 <= k < r.len() implies is_code_char(#[trigger] r[k]) by {
            if k > 0 {
                assert(r[k] == lower_prefix(s.drop_first())[k - 1]);
            } else {
                let c = s[0];
                if 'A' <= c && c <= 'Z' {
                    assert(ascii_lower(c) as u32 == (c as u32) + 32);
                }
            }
        }
    }
}

proof fn lemma_lower_prefix_fixed(s: Seq<char>)
    requires
        forall|k: int| 0 <= k < s.len() ==> is_code_char(#[trigger] s[k]),
    ensures
        lower_prefix(s) == s,
    decreases s.len(),
{
    if s.len() > 0 {
        assert(is_code_char(s[0]));
        assert forall|k: int| 0 <= k < s.drop_first().len() implies is_code_char(#[trigger] s.drop_first()[k]) by {
            assert(s.drop_first()[k] == s[k + 1]);
        }
        lemma_lower_prefix_fixed(s.drop_first());
        assert(seq![s[0]] + s.drop_first() =~= s);
    }
}

/// A language code is non-empty and trimmed, has no separator and no ASCII
/// capital, is its own code, and is `fr` for a blank locale.
pub proof fn lemma_lang_code_normal(locale: Seq<char>)
    ensures
        lang_code_of(locale).len() > 0,
        trim(lang_code_of(locale)) == lang_code_of(locale),
        forall|k: int| 0 <= k < lang_code_of(locale).len() ==> is_code_char(#[trigger] lang_code_of(locale)[k]),
        lang_code_of(lang_code_of(locale)) == lang_code_of(locale),
        is_blank(locale) ==> lang_code_of(locale) == "fr"@,
{
    reveal_strlit("fr");
    let fr = "fr"@;
    assert(fr =~= seq!['f', 'r']);
    let t = trim(locale);
    let lp = lower_prefix(t);
    let base = trim(lp);
    lemma_lower_prefix_chars(t);
    lemma_trim_shape(lp);
    let r = lang_code_of(locale);
    if t.len() == 0 || base.len() == 0 {
        assert(r == fr);
        // "fr" is trimmed and made of code characters.
        assert(trim_start(fr) == fr);
        assert(trim_end(fr) == fr);
        assert(forall|k: int| 0 <= k < fr.len() ==> is_code_char(#[trigger] fr[k]));
    } else {
        assert(r == base);
        let (i, j) = choose|i: int, j: int| 0 <= i <= j <= lp.len() && base == lp.subrange(i, j);
        assert forall|k: int| 0 <= k < base.len() implies is_code_char(#[trigger] base[k]) by {
            assert(base[k] == lp[i + k]);
        }
    }
    // The code is its own code.
    lemma_trim_shape(r);
    assert(trim(r) == r) by {
        if r.len() > 0 {
            assert(trim_start(r) == r);
            assert(trim_end(r) == r);
        }
    }
    lemma_lower_prefix_fixed(r);
}

/// An optional text that is absent or blank.
pub open spec fn opt_blank(o: Option<Seq<char>>) -> bool {
    match o {
        Some(s) => is_blank(s),
        None => true,
    }
}

/// The trimmed text, or nothing when it is blank.
pub open spec fn nonempty_of(s: Seq<char>) -> Option<Seq<char>> {
    if is_blank(s) {
        None
    } else {
        Some(trim(s))
    }
}

/// Trimmed copy of `value`, or `None` when it is blank.
pub fn nonempty_owned(value: &str) -> (r: Option<String>)
    ensures
        r.deep_view() == nonempty_of(value@),
{
    let t = trim_str(value);
    if t.unicode_len() == 0 {
        None
    } else {
        Some(t.to_owned())
    }
}

/// True when the optional text is absent or blank.
pub fn opt_empty(value: &Option<String>) -> (b: bool)
    ensures
        b == opt_blank(value.deep_view()),
{
    match value {
        Some(s) => blank(s.as_str()),
        None => true,
    }
}

/// Trimmed optional text, dropped when blank.
pub fn nonempty_opt(value: Option<String>) -> (r: Option<String>)
    ensures
        r.deep_view() == (match value.deep_view() {
            Some(s) => nonempty_of(s),
            None => None,
        }),
{
    match value {
        Some(s) => nonempty_owned(s.as_str()),
        None => None,
    }
}

/// Trimmed copy of a string (`s.trim().to_string()`).
pub fn trimmed_owned(s: &str) -> (r: String)
    ensures
        r@ == trim(s@),
{
    trim_str(s).to_owned()
}


/// Decimal digit character of `d` (`0`..`9`).
pub open spec fn digit_of(d: nat) -> char {
    if d == 0 { '0' } else if d == 1 { '1' } else if d == 2 { '2' } else if d == 3 { '3' }
    else if d == 4 { '4' } else if d == 5 { '5' } else if d == 6 { '6' } else if d == 7 { '7' }
    else if d == 8 { '8' } else { '9' }
}

/// Base-10 text of a natural number, without leading zeros.
pub open spec fn decimal_of(n: nat) -> Seq<char>
    decreases n,
{
    if n < 10 {
        seq![digit_of(n)]
    } else {
        decimal_of(n / 10).push(digit_of(n % 10))
    }
}

fn digit_char(d: usize) -> (c: char)
    requires
        d < 10,
    ensures
        c == digit_of(d as nat),
{
    if d == 0 { '0' } else if d == 1 { '1' } else if d == 2 { '2' } else if d == 3 { '3' }
    else if d == 4 { '4' } else if d == 5 { '5' } else if d == 6 { '6' } else if d == 7 { '7' }
    else if d == 8 { '8' } else { '9' }
}

/// Appends the decimal text of `n` (`usize` as `Display` writes it).
pub fn push_decimal(s: &mut String, n: usize)
    ensures
        final(s)@ == old(s)@ + decimal_of(n as nat),
    decreases n,
{
    if n >= 10 {
        push_decimal(s, n / 10);
    }
    push_char(s, digit_char(n % 10));
    assert(s@ =~= old(s)@ + decimal_of(n as nat));
}

/// Lexicographic order of texts by code point (the order of `String`'s `Ord`,
/// which compares UTF-8 bytes).
pub open spec fn str_lt(a: Seq<char>, b: Seq<char>) -> bool
    decreases a.len(),
{
    if a.len() == 0 {
        b.len() > 0
    } else if b.len() == 0 {
        false
    } else if a[0] != b[0] {
        a[0] < b[0]
    } else {
        str_lt(a.drop_first(), b.drop_first())
    }
}

/// No text comes before itself.
pub proof fn lemma_str_lt_irreflexive(a: Seq<char>)
    ensures
        !str_lt(a, a),
    decreases a.len(),
{
    if a.len() > 0 {
        lemma_str_lt_irreflexive(a.drop_first());
    }
}

/// The order is transitive.
pub proof fn lemma_str_lt_transitive(a: Seq<char>, b: Seq<char>, c: Seq<char>)
    requires
        str_lt(a, b),
        str_lt(b, c),
    ensures
        str_lt(a, c),
    decreases a.len(),
{
    if a.len() > 0 && b.len() > 0 && c.len() > 0 && a[0] == b[0] && b[0] == c[0] {
        lemma_str_lt_transitive(a.drop_first(), b.drop_first(), c.drop_first());
    }
}

/// Two different texts are ordered one way or the other.
pub proof fn lemma_str_lt_total(a: Seq<char>, b: Seq<char>)
    requires
        a != b,
    ensures
        str_lt(a, b) || str_lt(b, a),
    decreases a.len(),
{
    if a.len() > 0 && b.len() > 0 && a[0] == b[0] {
        if a.drop_first() == b.drop_first() {
            assert(a =~= seq![a[0]] + a.drop_first());
            assert(b =~= seq![b[0]] + b.drop_first());
        }
        lemma_str_lt_total(a.drop_first(), b.drop_first());
    } else if a.len() == 0 && b.len() == 0 {
        assert(a =~= b);
    }
}

/// `a < b` in the order of [`str_lt`].
pub fn str_less(a: &str, b: &str) -> (r: bool)
    ensures
        r == str_lt(a@, b@),
{
    let x = chars_of(a);
    let y = chars_of(b);
    let mut i: usize = 0;
    assert(x@.subrange(0, x@.len() as int) =~= x@);
    assert(y@.subrange(0, y@.len() as int) =~= y@);
    while i < x.len() && i < y.len() && x[i] == y[i]
        invariant
            x@ == a@,
            y@ == b@,
            i <= x@.len(),
            i <= y@.len(),
            str_lt(a@, b@) == str_lt(x@.subrange(i as int, x@.len() as int), y@.subrange(i as int, y@.len() as int)),
        decreases x.len() - i,
    {
        let ghost xs = x@.subrange(i as int, x@.len() as int);
        let ghost ys = y@.subrange(i as int, y@.len() as int);
        assert(xs.drop_first() =~= x@.subrange(i + 1, x@.len() as int));
        assert(ys.drop_first() =~= y@.subrange(i + 1, y@.len() as int));
        i = i + 1;
    }
    if i == x.len() {
        i < y.len()
    } else if i == y.len() {
        false
    } else {
        x[i] < y[i]
    }
}

} // verus!
