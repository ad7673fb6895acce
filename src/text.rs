//! Text produced by outside code (number formatting, timestamps, case folding,
//! the non-word replacement) and metric-name normalisation built on it.
use vstd::prelude::*;

verus! {

/// The character of a decimal digit.
pub open spec fn digit_char(d: nat) -> char {
    if d == 0 {
        '0'
    } else if d == 1 {
        '1'
    } else if d == 2 {
        '2'
    } else if d == 3 {
        '3'
    } else if d == 4 {
        '4'
    } else if d == 5 {
        '5'
    } else if d == 6 {
        '6'
    } else if d == 7 {
        '7'
    } else if d == 8 {
        '8'
    } else {
        '9'
    }
}

/// The decimal digits of a natural number, most significant first, no leading zeros.
pub open spec fn nat_text(n: nat) -> Seq<char>
    decreases n,
{
    if n < 10 {
        seq![digit_char(n)]
    } else {
        nat_text(n / 10).push(digit_char(n % 10))
    }
}

/// The decimal text of an integer, with a leading `-` when negative.
pub open spec fn int_text(i: int) -> Seq<char> {
    if i < 0 {
        seq!['-'] + nat_text((-i) as nat)
    } else {
        nat_text(i as nat)
    }
}

/// The text of one decimal digit.
fn digit_text(d: u64) -> (r: &'static str)
    requires
        d < 10,
    ensures
        r@ == seq![digit_char(d as nat)],
{
    proof {
        reveal_strlit("0");
        reveal_strlit("1");
        reveal_strlit("2");
        reveal_strlit("3");
        reveal_strlit("4");
        reveal_strlit("5");
        reveal_strlit("6");
        reveal_strlit("7");
        reveal_strlit("8");
        reveal_strlit("9");
    }
    let r = if d == 0 {
        "0"
    } else if d == 1 {
        "1"
    } else if d == 2 {
        "2"
    } else if d == 3 {
        "3"
    } else if d == 4 {
        "4"
    } else if d == 5 {
        "5"
    } else if d == 6 {
        "6"
    } else if d == 7 {
        "7"
    } else if d == 8 {
        "8"
    } else {
        "9"
    };
    assert(r@ =~= seq![digit_char(d as nat)]);
    r
}

/// The decimal digits of a natural number.
fn digits(n: u64) -> (r: String)
    ensures
        r@ == nat_text(n as nat),
    decreases n,
{
    if n < 10 {
        String::from_str(digit_text(n))
    } else {
        let mut r = digits(n / 10);
        r.append(digit_text(n % 10));
        r
    }
}

/// The decimal text of a signed integer.
pub(crate) fn i64_text(x: i64) -> (r: String)
    ensures
        r@ == int_text(x as int),
{
    if x < 0 {
        let magnitude: u64 = (-(x as i128)) as u64;
        let mut r = String::from_str("-");
        proof {
            reveal_strlit("-");
        }
        let d = digits(magnitude);
        r.append(d.as_str());
        assert(r@ =~= seq!['-'] + nat_text((-(x as int)) as nat));
        r
    } else {
        digits(x as u64)
    }
}

/// The decimal text of a signed 32-bit integer.
pub(crate) fn i32_text(x: i32) -> (r: String)
    ensures
        r@ == int_text(x as int),
{
    i64_text(x as i64)
}

/// The decimal text of an unsigned integer.
pub(crate) fn u64_text(x: u64) -> (r: String)
    ensures
        r@ == int_text(x as int),
{
    digits(x)
}

/// The RFC 3339 UTC text of an instant given in nanoseconds since the Unix epoch,
/// as humantime writes it.
pub uninterp spec fn rfc3339_of(unix_nanos: u64) -> Seq<char>;

/// Relies on `humantime::format_rfc3339`: RFC 3339 text in UTC, with fractional
/// seconds only when they are not zero. Every `u64` of nanoseconds lies before the
/// year 9999, where its `Display` would fail.
#[verifier::external_body]
pub(crate) fn rfc3339_text(unix_nanos: u64) -> (r: String)
    ensures
        r@ == rfc3339_of(unix_nanos),
{
    humantime::format_rfc3339(
        std::time::SystemTime::UNIX_EPOCH + std::time::Duration::from_nanos(unix_nanos),
    ).to_string()
}

/// The lowercase form of a string, as `str::to_lowercase` gives it.
pub uninterp spec fn lower_of(s: Seq<char>) -> Seq<char>;

/// Relies on `str::to_lowercase`: the result depends on the characters alone, and an
/// empty string stays empty.
#[verifier::external_body]
pub(crate) fn lowercase(s: &str) -> (r: String)
    ensures
        r@ == lower_of(s@),
        s@.len() == 0 ==> r@.len() == 0,
{
    s.to_lowercase()
}

/// Whether a character belongs to the regex class `\w` (Unicode word characters).
pub uninterp spec fn word_char(c: char) -> bool;

/// Replaces each maximal run of non-word characters by one `_`; `in_run` says that
/// the text before `s` ended inside such a run.
pub open spec fn squash_from(s: Seq<char>, in_run: bool) -> Seq<char>
    decreases s.len(),
{
    if s.len() == 0 {
        s
    } else if word_char(s[0]) {
        seq![s[0]] + squash_from(s.drop_first(), false)
    } else if in_run {
        squash_from(s.drop_first(), true)
    } else {
        seq!['_'] + squash_from(s.drop_first(), true)
    }
}

/// Every maximal run of non-word characters replaced by exactly one `_`.
pub open spec fn squash_runs(s: Seq<char>) -> Seq<char> {
    squash_from(s, false)
}

/// Relies on `regex::Regex::replace_all` with the pattern `[^\w]+` and the
/// replacement `_`: leftmost, greedy, non-overlapping matches, so each maximal run
/// of characters outside `\w` becomes one `_`. Every character left is in `\w`:
/// the kept ones by the pattern, and `_` because `\w` holds the connector
/// punctuation (`\p{Pc}`). The pattern is valid, so `unwrap` does not panic.
#[verifier::external_body]
pub(crate) fn replace_non_word_runs(s: &str) -> (r: String)
    ensures
        r@ == squash_runs(s@),
        forall|i: int| 0 <= i < r@.len() ==> word_char(#[trigger] r@[i]),
{
    regex::Regex::new(r"[^\w]+").unwrap().replace_all(s, "_").into_owned()
}

/// The SQL identifier made from a name: lowercased, then every run of non-word
/// characters replaced by one `_`.
pub open spec fn clean(s: Seq<char>) -> Seq<char> {
    squash_runs(lower_of(s))
}

/// Normalises a metric, table or column name into a SQL identifier.
pub fn clean_id(s: &str) -> (r: String)
    ensures
        r@ == clean(s@),
        forall|i: int| 0 <= i < r@.len() ==> word_char(#[trigger] r@[i]),
        r@.len() <= lower_of(s@).len(),
        s@.len() == 0 ==> r@.len() == 0,
{
    let l = lowercase(s);
    let r = replace_non_word_runs(l.as_str());
    proof {
        lemma_squash_from_len(l@, false);
    }
    r
}

proof fn lemma_squash_from_len(s: Seq<char>, in_run: bool)
    ensures
        squash_from(s, in_run).len() <= s.len(),
    decreases s.len(),
{
    if s.len() > 0 {
        lemma_squash_from_len(s.drop_first(), false);
        lemma_squash_from_len(s.drop_first(), true);
    }
}

/// Text in which every non-word character is a `_` followed by a word character
/// (or by the end).
pub open spec fn squashed(t: Seq<char>) -> bool {
    forall|i: int|
        0 <= i < t.len() && !word_char(#[trigger] t[i]) ==> t[i] == '_' && (i + 1 < t.len()
            ==> word_char(t[i + 1]))
}

proof fn lemma_squashed_cons(c: char, t: Seq<char>)
    requires
        squashed(t),
        word_char(c) || (c == '_' && (t.len() == 0 || word_char(t[0]))),
    ensures
        squashed(seq![c] + t),
{
    let u = seq![c] + t;
    assert forall|i: int| 0 <= i < u.len() && !word_char(#[trigger] u[i]) implies u[i] == '_' && (
    i + 1 < u.len() ==> word_char(u[i + 1])) by {
        if i > 0 {
            assert(u[i] == t[i - 1]);
            if i + 1 < u.len() {
                assert(u[i + 1] == t[i]);
            }
        } else if i + 1 < u.len() {
            assert(u[1] == t[0]);
        }
    }
}

proof fn lemma_squash_from_shape(s: Seq<char>, in_run: bool)
    ensures
        squashed(squash_from(s, in_run)),
        in_run ==> (squash_from(s, in_run).len() == 0 || word_char(squash_from(s, in_run)[0])),
    decreases s.len(),
{
    if s.len() > 0 {
        lemma_squash_from_shape(s.drop_first(), false);
        lemma_squash_from_shape(s.drop_first(), true);
        if word_char(s[0]) {
            lemma_squashed_cons(s[0], squash_from(s.drop_first(), false));
        } else if !in_run {
            lemma_squashed_cons('_', squash_from(s.drop_first(), true));
        }
    }
}

proof fn lemma_squash_fixes_squashed(t: Seq<char>)
    requires
        squashed(t),
    ensures
        squash_from(t, false) == t,
    decreases t.len(),
{
    if t.len() > 0 {
        let u = t.drop_first();
        assert(squashed(u)) by {
            assert forall|i: int| 0 <= i < u.len() && !word_char(#[trigger] u[i]) implies u[i]
                == '_' && (i + 1 < u.len() ==> word_char(u[i + 1])) by {
                assert(u[i] == t[i + 1]);
                if i + 1 < u.len() {
                    assert(u[i + 1] == t[i + 2]);
                }
            }
        }
        lemma_squash_fixes_squashed(u);
        if word_char(t[0]) {
            assert(seq![t[0]] + u == t);
        } else {
            assert(t[0] == '_');
            if u.len() > 0 {
                assert(word_char(u[0])) by {
                    assert(u[0] == t[1]);
                }
                assert(squash_from(u, true) == squash_from(u, false));
            }
            assert(seq!['_'] + u == t);
        }
    }
}

/// Replacing non-word runs is idempotent: a second pass changes nothing.
pub proof fn lemma_squash_runs_idempotent(s: Seq<char>)
    ensures
        squash_runs(squash_runs(s)) == squash_runs(s),
{
    lemma_squash_from_shape(s, false);
    lemma_squash_fixes_squashed(squash_runs(s));
}

/// Normalisation is idempotent for every name whose normal form lowercases to itself
/// (`clean` lowercases before it replaces, and only the replacement step is proved
/// idempotent here).
pub proof fn lemma_clean_idempotent(s: Seq<char>)
    requires
        lower_of(clean(s)) == clean(s),
    ensures
        clean(clean(s)) == clean(s),
{
    lemma_squash_runs_idempotent(lower_of(s));
}

} // verus!
