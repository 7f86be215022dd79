use vstd::prelude::*;
use vstd::string::*;

verus! {

// ---------------------------------------------------------------------------
// Characters and strings
// ---------------------------------------------------------------------------

/// The ASCII lowercase of a character: `A`..`Z` map to `a`..`z`, every other
/// character is left as it is.
pub open spec fn ascii_lower(c: char) -> char {
    if 'A' <= c && c <= 'Z' {
        ((c as u32) + 32) as char
    } else {
        c
    }
}

/// A string with every ASCII letter lowercased.
pub open spec fn lowercase(s: Seq<char>) -> Seq<char> {
    s.map_values(|c: char| ascii_lower(c))
}

/// `c` is one of the ASCII digits `0`..`9`.
pub open spec fn is_digit(c: char) -> bool {
    '0' <= c && c <= '9'
}

/// The value of an ASCII digit.
pub open spec fn digit_value(c: char) -> nat {
    ((c as u32) - ('0' as u32)) as nat
}

/// Every character of `s` is an ASCII digit.
pub open spec fn all_digits(s: Seq<char>) -> bool {
    forall|i: int| 0 <= i < s.len() ==> is_digit(#[trigger] s[i])
}

/// The number that a string of decimal digits denotes (most significant first).
pub open spec fn decimal_value(s: Seq<char>) -> nat
    decreases s.len(),
{
    if s.len() == 0 {
        0
    } else {
        decimal_value(s.drop_last()) * 10 + digit_value(s.last())
    }
}

/// The digits of an unsigned decimal literal: the string without one leading `+`.
pub open spec fn unsigned_body(s: Seq<char>) -> Seq<char> {
    if s.len() > 0 && s[0] == '+' {
        s.drop_first()
    } else {
        s
    }
}

/// What parsing `s` as a `usize` in base 10 gives: an optional `+` followed by
/// at least one ASCII digit, denoting a value no larger than `usize::MAX`.
pub open spec fn decimal_usize(s: Seq<char>) -> Option<usize> {
    let d = unsigned_body(s);
    if d.len() > 0 && all_digits(d) && decimal_value(d) <= usize::MAX {
        Some(decimal_value(d) as usize)
    } else {
        None
    }
}

// ---------------------------------------------------------------------------
// Option types
// ---------------------------------------------------------------------------

/// Regression type for the KPSS detrending step.
#[derive(Clone, Copy, Debug, PartialEq, Eq, Structural)]
pub enum Regression {
    /// Level stationarity: detrend by subtracting the mean.
    C,
    /// Trend stationarity: detrend by OLS on [intercept, linear trend].
    Ct,
}

/// Lag selection method for the HAC estimator.
#[derive(Clone, Copy, Debug, PartialEq, Eq, Structural)]
pub enum NLags {
    /// Hobijn et al. (1998) data-dependent selection.
    Auto,
    /// Schwert (1989): ceil(12 * (n/100)^0.25), clamped to n-1.
    Legacy,
    /// User-specified fixed lag count.
    Fixed(usize),
}

/// The regression a name selects: `c` or `ct`, ignoring ASCII case.
pub open spec fn regression_named(s: Seq<char>) -> Option<Regression> {
    let l = lowercase(s);
    if l == seq!['c'] {
        Some(Regression::C)
    } else if l == seq!['c', 't'] {
        Some(Regression::Ct)
    } else {
        None
    }
}

/// The lag method a name selects: `auto` or `legacy` ignoring ASCII case,
/// otherwise an unsigned decimal integer.
pub open spec fn nlags_named(s: Seq<char>) -> Option<NLags> {
    let l = lowercase(s);
    if l == seq!['a', 'u', 't', 'o'] {
        Some(NLags::Auto)
    } else if l == seq!['l', 'e', 'g', 'a', 'c', 'y'] {
        Some(NLags::Legacy)
    } else {
        match decimal_usize(s) {
            Some(n) => Some(NLags::Fixed(n)),
            None => None,
        }
    }
}

// ---------------------------------------------------------------------------
// Executable parsing
// ---------------------------------------------------------------------------

/// Lowercases a single character, ASCII letters only.
pub fn lower_char(c: char) -> (r: char)
    ensures
        r == ascii_lower(c),
        'A' <= c <= 'Z' ==> r as u32 == c as u32 + 32,
        !('A' <= c <= 'Z') ==> r == c,
{
    if 'A' <= c && c <= 'Z' {
        let b: u8 = (c as u8) + 32;
        b as char
    } else {
        c
    }
}

/// Whether `s`, lowercased, is exactly `word`.
fn lowercase_equals(s: &str, word: &str) -> (r: bool)
    ensures
        r == (lowercase(s@) == word@),
{
    let n = s.unicode_len();
    let m = word.unicode_len();
    if n != m {
        assert(lowercase(s@).len() != word@.len());
        return false;
    }
    let mut i: usize = 0;
    while i < n
        invariant
            i <= n,
            n == s@.len(),
            m == word@.len(),
            n == m,
            forall|j: int| 0 <= j < i ==> ascii_lower(#[trigger] s@[j]) == word@[j],
        decreases n - i,
    {
        let c = lower_char(s.get_char(i));
        if c != word.get_char(i) {
            assert(lowercase(s@)[i as int] != word@[i as int]);
            return false;
        }
        i = i + 1;
    }
    assert(lowercase(s@) =~= word@);
    true
}

proof fn lemma_decimal_value_prefix(s: Seq<char>, k: int)
    requires
        0 <= k <= s.len(),
    ensures
        decimal_value(s.take(k)) <= decimal_value(s),
    decreases s.len(),
{
    if k == s.len() {
        assert(s.take(k) =~= s);
    } else {
        assert(s.drop_last().take(k) =~= s.take(k));
        lemma_decimal_value_prefix(s.drop_last(), k);
    }
}

/// Parses `s` as a base-10 `usize`: an optional `+`, then one or more ASCII
/// digits, with no overflow.
pub fn parse_decimal_usize(s: &str) -> (r: Option<usize>)
    ensures
        r == decimal_usize(s@),
{
    let n = s.unicode_len();
    let mut start: usize = 0;
    if n > 0 && s.get_char(0) == '+' {
        start = 1;
    }
    let ghost d = unsigned_body(s@);
    assert(d =~= s@.subrange(start as int, n as int));
    if start == n {
        return None;
    }
    let mut acc: usize = 0;
    let mut i: usize = start;
    assert(s@.subrange(start as int, i as int) =~= Seq::<char>::empty());
    while i < n
        invariant
            start <= i <= n,
            start < n,
            n == s@.len(),
            d == s@.subrange(start as int, n as int),
            d == unsigned_body(s@),
            all_digits(s@.subrange(start as int, i as int)),
            acc as nat == decimal_value(s@.subrange(start as int, i as int)),
        decreases n - i,
    {
        let c = s.get_char(i);
        let ghost next = s@.subrange(start as int, i + 1);
        assert(next.drop_last() =~= s@.subrange(start as int, i as int));
        assert(next =~= d.take(i + 1 - start));
        if !('0' <= c && c <= '9') {
            assert(!is_digit(d[i - start]));
            return None;
        }
        let v: usize = ((c as u32) - ('0' as u32)) as usize;
        assert(v as nat == digit_value(c));
        assert(decimal_value(next) == acc * 10 + v);
        match acc.checked_mul(10) {
            None => {
                proof {
                    if all_digits(d) {
                        lemma_decimal_value_prefix(d, i + 1 - start);
                    }
                }
                return None;
            },
            Some(m) => match m.checked_add(v) {
                None => {
                    proof {
                        if all_digits(d) {
                            lemma_decimal_value_prefix(d, i + 1 - start);
                        }
                    }
                    return None;
                },
                Some(a) => {
                    acc = a;
                },
            },
        }
        i = i + 1;
    }
    Some(acc)
}

impl Regression {
    /// Parse "c" or "ct" (case-insensitive).
    pub fn parse(s: &str) -> (r: Option<Regression>)
        ensures
            r == regression_named(s@),
            r == Some(Regression::C) <==> spells_c(s@),
            r == Some(Regression::Ct) <==> spells_ct(s@),
    {
        proof {
            lemma_regression_names(s@);
            reveal_strlit("c");
            reveal_strlit("ct");
            assert("c"@ =~= seq!['c']);
            assert("ct"@ =~= seq!['c', 't']);
        }
        if lowercase_equals(s, "c") {
            Some(Regression::C)
        } else if lowercase_equals(s, "ct") {
            Some(Regression::Ct)
        } else {
            None
        }
    }
}

impl NLags {
    /// Parse "auto", "legacy" (case-insensitive), or an integer string.
    pub fn parse(s: &str) -> (r: Option<NLags>)
        ensures
            r == nlags_named(s@),
            r == Some(NLags::Auto) <==> spells_auto(s@),
            r == Some(NLags::Legacy) <==> spells_legacy(s@),
            decimal_usize(s@) matches Some(n) ==> r == Some(NLags::Fixed(n)),
    {
        proof {
            lemma_nlags_keywords(s@);
            lemma_numbers_name_fixed(s@);
            reveal_strlit("auto");
            reveal_strlit("legacy");
            assert("auto"@ =~= seq!['a', 'u', 't', 'o']);
            assert("legacy"@ =~= seq!['l', 'e', 'g', 'a', 'c', 'y']);
        }
        if lowercase_equals(s, "auto") {
            Some(NLags::Auto)
        } else if lowercase_equals(s, "legacy") {
            Some(NLags::Legacy)
        } else {
            match parse_decimal_usize(s) {
                Some(n) => Some(NLags::Fixed(n)),
                None => None,
            }
        }
    }
}

/// Why the command-line options could not be read.
#[derive(Clone, Copy, Debug, PartialEq, Eq, Structural)]
pub enum OptionError {
    /// The regression name is neither `c` nor `ct`.
    UnknownRegression,
    /// The lag method is neither `auto`, `legacy` nor an unsigned integer.
    UnknownNLags,
}

/// What reading the two options gives: the regression is checked first.
pub open spec fn options_named(regression: Seq<char>, nlags: Seq<char>) -> Result<(Regression, NLags), OptionError> {
    match regression_named(regression) {
        None => Err(OptionError::UnknownRegression),
        Some(r) => match nlags_named(nlags) {
            None => Err(OptionError::UnknownNLags),
            Some(l) => Ok((r, l)),
        },
    }
}

/// Reads the regression type and the lag method from their names.
pub fn parse_options(regression: &str, nlags: &str) -> (r: Result<(Regression, NLags), OptionError>)
    ensures
        r == options_named(regression@, nlags@),
        regression_named(regression@) is None ==> r == Err::<(Regression, NLags), OptionError>(
            OptionError::UnknownRegression,
        ),
        regression_named(regression@) is Some && nlags_named(nlags@) is None ==> r == Err::<
            (Regression, NLags),
            OptionError,
        >(OptionError::UnknownNLags),
        forall|x: Regression, y: NLags|
            regression_named(regression@) == Some(x) && nlags_named(nlags@) == Some(y) ==> r == Ok::<
                (Regression, NLags),
                OptionError,
            >((x, y)),
{
    let reg = match Regression::parse(regression) {
        Some(reg) => reg,
        None => return Err(OptionError::UnknownRegression),
    };
    match NLags::parse(nlags) {
        Some(l) => Ok((reg, l)),
        None => Err(OptionError::UnknownNLags),
    }
}

} // verus!

verus! {

// ---------------------------------------------------------------------------
// Laws of the option parsers
// ---------------------------------------------------------------------------

proof fn lemma_lowercase_idempotent(s: Seq<char>)
    ensures
        lowercase(lowercase(s)) == lowercase(s),
{
    assert(lowercase(lowercase(s)) =~= lowercase(s));
}

proof fn lemma_decimal_usize_ignores_case(s: Seq<char>)
    ensures
        decimal_usize(lowercase(s)) == decimal_usize(s),
{
    let l = lowercase(s);
    let d = unsigned_body(s);
    let dl = unsigned_body(l);
    assert(dl =~= lowercase(d));
    assert(all_digits(dl) == all_digits(d)) by {
        if all_digits(d) {
            assert forall|i: int| 0 <= i < dl.len() implies is_digit(#[trigger] dl[i]) by {
                assert(is_digit(d[i]));
            }
        }
        if all_digits(dl) {
            assert forall|i: int| 0 <= i < d.len() implies is_digit(#[trigger] d[i]) by {
                assert(is_digit(dl[i]));
            }
        }
    }
    if all_digits(d) {
        assert(dl =~= d);
    }
}

/// Names are matched without regard to ASCII case: lowercasing a name first
/// selects the same regression and the same lag method (integers included).
pub proof fn lemma_names_ignore_ascii_case(s: Seq<char>)
    ensures
        regression_named(lowercase(s)) == regression_named(s),
        nlags_named(lowercase(s)) == nlags_named(s),
{
    lemma_lowercase_idempotent(s);
    lemma_decimal_usize_ignores_case(s);
}

/// The ASCII digit for a value below ten.
pub open spec fn digit_char(d: nat) -> char {
    ((d + 48) as u32) as char
}

/// The decimal digits of `n`, most significant first, with no leading zeros.
pub open spec fn decimal_digits(n: nat) -> Seq<char>
    decreases n,
{
    if n < 10 {
        seq![digit_char(n)]
    } else {
        decimal_digits(n / 10).push(digit_char(n % 10))
    }
}

proof fn lemma_decimal_digits(n: nat)
    ensures
        all_digits(decimal_digits(n)),
        decimal_value(decimal_digits(n)) == n,
        decimal_digits(n).len() > 0,
        decimal_digits(n)[0] != '+',
    decreases n,
{
    if n < 10 {
        let s = decimal_digits(n);
        assert(s.drop_last() =~= Seq::<char>::empty());
        assert(digit_value(digit_char(n)) == n);
        assert(decimal_value(s.drop_last()) == 0);
        assert(decimal_value(s) == n);
    } else {
        lemma_decimal_digits(n / 10);
        let s = decimal_digits(n);
        assert(s.drop_last() =~= decimal_digits(n / 10));
        assert(forall|i: int| 0 <= i < s.len() - 1 ==> s[i] == decimal_digits(n / 10)[i]);
        assert(digit_value(digit_char(n % 10)) == n % 10);
        assert((n / 10) * 10 + n % 10 == n);
        assert(s.last() == digit_char(n % 10));
        assert(decimal_value(s) == decimal_value(decimal_digits(n / 10)) * 10 + n % 10);
    }
}

/// Every unsigned integer written in decimal, with or without a leading `+`,
/// names the fixed lag count equal to it.
pub proof fn lemma_decimal_names_fixed(n: usize)
    ensures
        nlags_named(decimal_digits(n as nat)) == Some(NLags::Fixed(n)),
        nlags_named(seq!['+'] + decimal_digits(n as nat)) == Some(NLags::Fixed(n)),
{
    let s = decimal_digits(n as nat);
    lemma_decimal_digits(n as nat);
    assert(is_digit(s[0]));
    assert(unsigned_body(s) == s);
    assert(lowercase(s)[0] == s[0]);
    let p = seq!['+'] + s;
    assert(unsigned_body(p) =~= s);
    assert(lowercase(p)[1] == s[0]);
}

} // verus!

verus! {

// ---------------------------------------------------------------------------
// What each name selects, written out character by character
// ---------------------------------------------------------------------------

proof fn lemma_lower_is_letter(c: char, w: char)
    requires
        'a' <= w <= 'z',
    ensures
        ascii_lower(c) == w <==> (c == w || c as u32 + 32 == w as u32),
{
}

proof fn lemma_lowercase_equals_word(s: Seq<char>, w: Seq<char>)
    requires
        forall|i: int| 0 <= i < w.len() ==> 'a' <= #[trigger] w[i] <= 'z',
    ensures
        lowercase(s) == w <==> (s.len() == w.len() && forall|i: int|
            0 <= i < s.len() ==> (#[trigger] s[i] == w[i] || s[i] as u32 + 32 == w[i] as u32)),
{
    if lowercase(s) == w {
        assert forall|i: int| 0 <= i < s.len() implies (#[trigger] s[i] == w[i] || s[i] as u32 + 32
            == w[i] as u32) by {
            assert(lowercase(s)[i] == ascii_lower(s[i]));
            lemma_lower_is_letter(s[i], w[i]);
        }
    }
    if s.len() == w.len() && forall|i: int|
        0 <= i < s.len() ==> (#[trigger] s[i] == w[i] || s[i] as u32 + 32 == w[i] as u32) {
        assert forall|i: int| 0 <= i < s.len() implies lowercase(s)[i] == w[i] by {
            lemma_lower_is_letter(s[i], w[i]);
        }
        assert(lowercase(s) =~= w);
    }
}

/// `s` spells `c` in either case.
pub open spec fn spells_c(s: Seq<char>) -> bool {
    s.len() == 1 && (s[0] == 'c' || s[0] == 'C')
}

/// `s` spells `ct` in any mix of cases.
pub open spec fn spells_ct(s: Seq<char>) -> bool {
    s.len() == 2 && (s[0] == 'c' || s[0] == 'C') && (s[1] == 't' || s[1] == 'T')
}

/// `s` spells `auto` in any mix of cases.
pub open spec fn spells_auto(s: Seq<char>) -> bool {
    &&& s.len() == 4
    &&& s[0] == 'a' || s[0] == 'A'
    &&& s[1] == 'u' || s[1] == 'U'
    &&& s[2] == 't' || s[2] == 'T'
    &&& s[3] == 'o' || s[3] == 'O'
}

/// `s` spells `legacy` in any mix of cases.
pub open spec fn spells_legacy(s: Seq<char>) -> bool {
    &&& s.len() == 6
    &&& s[0] == 'l' || s[0] == 'L'
    &&& s[1] == 'e' || s[1] == 'E'
    &&& s[2] == 'g' || s[2] == 'G'
    &&& s[3] == 'a' || s[3] == 'A'
    &&& s[4] == 'c' || s[4] == 'C'
    &&& s[5] == 'y' || s[5] == 'Y'
}

/// The regression names: exactly the spellings of `c` select `C`, exactly
/// those of `ct` select `Ct`, and nothing else selects a regression.
pub proof fn lemma_regression_names(s: Seq<char>)
    ensures
        regression_named(s) == Some(Regression::C) <==> spells_c(s),
        regression_named(s) == Some(Regression::Ct) <==> spells_ct(s),
        regression_named(s) is None <==> !spells_c(s) && !spells_ct(s),
{
    lemma_lowercase_equals_word(s, seq!['c']);
    lemma_lowercase_equals_word(s, seq!['c', 't']);
    if spells_c(s) {
        assert(s[0] == seq!['c'][0] || s[0] as u32 + 32 == seq!['c'][0] as u32);
    }
    if spells_ct(s) {
        assert(forall|i: int| 0 <= i < 2 ==> (#[trigger] s[i] == seq!['c', 't'][i] || s[i] as u32 + 32
            == seq!['c', 't'][i] as u32));
    }
}

/// The lag-method keywords: exactly the spellings of `auto` select `Auto`
/// and exactly those of `legacy` select `Legacy`.
pub proof fn lemma_nlags_keywords(s: Seq<char>)
    ensures
        nlags_named(s) == Some(NLags::Auto) <==> spells_auto(s),
        nlags_named(s) == Some(NLags::Legacy) <==> spells_legacy(s),
{
    let auto = seq!['a', 'u', 't', 'o'];
    let legacy = seq!['l', 'e', 'g', 'a', 'c', 'y'];
    lemma_lowercase_equals_word(s, auto);
    lemma_lowercase_equals_word(s, legacy);
    if spells_auto(s) {
        assert(forall|i: int| 0 <= i < 4 ==> (#[trigger] s[i] == auto[i] || s[i] as u32 + 32
            == auto[i] as u32));
    }
    if spells_legacy(s) {
        assert(forall|i: int| 0 <= i < 6 ==> (#[trigger] s[i] == legacy[i] || s[i] as u32 + 32
            == legacy[i] as u32));
    }
    if lowercase(s) == auto {
        assert(s[0] == auto[0] || s[0] as u32 + 32 == auto[0] as u32);
        assert(s[1] == auto[1] || s[1] as u32 + 32 == auto[1] as u32);
        assert(s[2] == auto[2] || s[2] as u32 + 32 == auto[2] as u32);
        assert(s[3] == auto[3] || s[3] as u32 + 32 == auto[3] as u32);
    }
    if lowercase(s) == legacy {
        assert(s[0] == legacy[0] || s[0] as u32 + 32 == legacy[0] as u32);
        assert(s[1] == legacy[1] || s[1] as u32 + 32 == legacy[1] as u32);
        assert(s[2] == legacy[2] || s[2] as u32 + 32 == legacy[2] as u32);
        assert(s[3] == legacy[3] || s[3] as u32 + 32 == legacy[3] as u32);
        assert(s[4] == legacy[4] || s[4] as u32 + 32 == legacy[4] as u32);
        assert(s[5] == legacy[5] || s[5] as u32 + 32 == legacy[5] as u32);
    }
}

/// Reading both options gives the pair of what each name selects when both
/// names are known; otherwise the first unknown name is reported.
pub proof fn lemma_options_pair(regression: Seq<char>, nlags: Seq<char>)
    ensures
        forall|x: Regression, y: NLags|
            options_named(regression, nlags) == Ok::<(Regression, NLags), OptionError>((x, y)) <==> (
            regression_named(regression) == Some(x) && nlags_named(nlags) == Some(y)),
        options_named(regression, nlags) == Err::<(Regression, NLags), OptionError>(
            OptionError::UnknownRegression,
        ) <==> regression_named(regression) is None,
        options_named(regression, nlags) == Err::<(Regression, NLags), OptionError>(
            OptionError::UnknownNLags,
        ) <==> (regression_named(regression) is Some && nlags_named(nlags) is None),
{
}

} // verus!

verus! {

// ---------------------------------------------------------------------------
// Laws of the decimal reading, stated on characters and numbers
// ---------------------------------------------------------------------------

/// A string read as a number is non-empty and made of ASCII digits, except
/// for one `+` in front of at least one digit.
pub proof fn lemma_decimal_usize_shape(s: Seq<char>)
    ensures
        decimal_usize(s) is Some ==> {
            &&& s.len() >= 1
            &&& !(s.len() == 1 && s[0] == '+')
            &&& forall|i: int| 0 <= i < s.len() ==> ('0' <= #[trigger] s[i] <= '9' || (i == 0 && s[i] == '+'))
        },
{
    if decimal_usize(s) is Some {
        let d = unsigned_body(s);
        assert forall|i: int| 0 <= i < s.len() implies ('0' <= #[trigger] s[i] <= '9' || (i == 0 && s[i] == '+')) by {
            if s.len() > 0 && s[0] == '+' {
                if i > 0 {
                    assert(d[i - 1] == s[i]);
                    assert(is_digit(d[i - 1]));
                }
            } else {
                assert(is_digit(d[i]));
            }
        }
    }
}

/// A single ASCII digit reads as its value.
pub proof fn lemma_decimal_usize_digit(c: char)
    requires
        '0' <= c <= '9',
    ensures
        decimal_usize(seq![c]) == Some((c as u32 - 48) as usize),
{
    let s = seq![c];
    assert(unsigned_body(s) == s);
    assert(s.drop_last() =~= Seq::<char>::empty());
    assert(decimal_value(s.drop_last()) == 0);
    assert(decimal_value(s) == c as u32 - 48);
}

/// Appending a digit to a string of digits multiplies its value by ten and
/// adds the digit; the reading fails exactly when that exceeds `usize::MAX`.
pub proof fn lemma_decimal_usize_push(s: Seq<char>, c: char)
    requires
        s.len() >= 1,
        forall|i: int| 0 <= i < s.len() ==> '0' <= #[trigger] s[i] <= '9',
        '0' <= c <= '9',
    ensures
        decimal_usize(s) matches Some(v) ==> (v * 10 + (c as u32 - 48) <= usize::MAX
            ==> decimal_usize(s.push(c)) == Some((v * 10 + (c as u32 - 48)) as usize)),
        decimal_usize(s) matches Some(v) ==> (v * 10 + (c as u32 - 48) > usize::MAX
            ==> decimal_usize(s.push(c)) is None),
        decimal_usize(s) is None ==> decimal_usize(s.push(c)) is None,
{
    let t = s.push(c);
    assert(unsigned_body(s) == s);
    assert(unsigned_body(t) == t);
    assert(t.drop_last() =~= s);
    assert(all_digits(s));
    assert(all_digits(t)) by {
        assert forall|i: int| 0 <= i < t.len() implies is_digit(#[trigger] t[i]) by {
            if i < s.len() {
                assert(t[i] == s[i]);
            }
        }
    }
    assert(decimal_value(t) == decimal_value(s) * 10 + (c as u32 - 48));
}

/// A `+` in front of a string that does not start with `+` changes nothing.
pub proof fn lemma_decimal_usize_plus(s: Seq<char>)
    requires
        s.len() >= 1,
        s[0] != '+',
    ensures
        decimal_usize(seq!['+'] + s) == decimal_usize(s),
{
    assert(unsigned_body(seq!['+'] + s) =~= s);
}

/// A string that reads as a number names that fixed lag count: no keyword is
/// a number.
pub proof fn lemma_numbers_name_fixed(s: Seq<char>)
    ensures
        decimal_usize(s) matches Some(n) ==> nlags_named(s) == Some(NLags::Fixed(n)),
{
    if decimal_usize(s) is Some {
        lemma_decimal_usize_shape(s);
        assert(lowercase(s)[0] == ascii_lower(s[0]));
        assert(lowercase(s)[0] != 'a');
        assert(lowercase(s)[0] != 'l');
        assert(lowercase(s) != seq!['a', 'u', 't', 'o']);
        assert(lowercase(s) != seq!['l', 'e', 'g', 'a', 'c', 'y']);
    }
}

} // verus!
