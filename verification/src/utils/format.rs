use vstd::prelude::*;
use chrono::{DateTime, NaiveDateTime, Utc};
pub use crate::utils::markdown::render_markdown;
use crate::utils::text::{chars_of, ends_with, find_char, find_char_from, has_at, lemma_find_char_from, lemma_find_char_is, push_char, starts_with};

verus! {

/// `s` cut to its first `max_chars` characters, followed by `...` when something was cut.
pub open spec fn truncate_spec(s: Seq<char>, max_chars: int) -> Seq<char> {
    if s.len() <= max_chars {
        s
    } else {
        s.take(max_chars) + "..."@
    }
}

/// Shortens `s` to at most `max_chars` characters and marks the cut with `...`.
pub fn truncate(s: &str, max_chars: usize) -> (res: String)
    ensures
        res@ == truncate_spec(s@, max_chars as int),
{
    let n = s.unicode_len();
    if n <= max_chars {
        String::from_str(s)
    } else {
        let mut truncated = String::from_str(s.substring_char(0, max_chars));
        truncated.append("...");
        truncated
    }
}

/// A truncated text keeps the first `max_chars` characters (or all of a shorter text)
/// and is at most three characters longer than that.
pub proof fn lemma_truncate_bounds(s: Seq<char>, max_chars: int)
    requires
        max_chars >= 0,
    ensures
        truncate_spec(s, max_chars).len() <= max_chars + 3,
        s.len() <= max_chars ==> truncate_spec(s, max_chars) == s,
        s.len() > max_chars ==> truncate_spec(s, max_chars).take(max_chars) == s.take(max_chars),
{
    reveal_strlit("...");
    if s.len() > max_chars {
        assert(truncate_spec(s, max_chars).take(max_chars) =~= s.take(max_chars));
    }
}

/// The digit character for `d`, which is below ten.
pub open spec fn digit_char(d: int) -> char {
    seq!['0', '1', '2', '3', '4', '5', '6', '7', '8', '9'][d]
}

/// The decimal numeral of `n`, without leading zeros.
pub open spec fn decimal(n: nat) -> Seq<char>
    decreases n,
{
    if n < 10 {
        seq![digit_char(n as int)]
    } else {
        decimal(n / 10).push(digit_char((n % 10) as int))
    }
}

fn digit(d: u64) -> (res: char)
    requires
        d < 10,
    ensures
        res == digit_char(d as int),
{
    let digits = ['0', '1', '2', '3', '4', '5', '6', '7', '8', '9'];
    assert(digits@ =~= seq!['0', '1', '2', '3', '4', '5', '6', '7', '8', '9']);
    digits[d as usize]
}

/// The number that a string of decimal digits stands for.
pub open spec fn digits_value(ds: Seq<char>) -> int
    decreases ds.len(),
{
    if ds.len() == 0 {
        0
    } else {
        digits_value(ds.drop_last()) * 10 + (ds.last() as int - '0' as int)
    }
}

proof fn lemma_digit_char_value(d: int)
    requires
        0 <= d < 10,
    ensures
        digit_char(d) as int - '0' as int == d,
        '0' <= digit_char(d) <= '9',
        d > 0 ==> digit_char(d) != '0',
{
    let digits = seq!['0', '1', '2', '3', '4', '5', '6', '7', '8', '9'];
    if d == 0 { assert(digits[0] == '0'); }
    else if d == 1 { assert(digits[1] == '1'); }
    else if d == 2 { assert(digits[2] == '2'); }
    else if d == 3 { assert(digits[3] == '3'); }
    else if d == 4 { assert(digits[4] == '4'); }
    else if d == 5 { assert(digits[5] == '5'); }
    else if d == 6 { assert(digits[6] == '6'); }
    else if d == 7 { assert(digits[7] == '7'); }
    else if d == 8 { assert(digits[8] == '8'); }
    else { assert(digits[9] == '9'); }
}

/// The decimal numeral of `n` consists of digits, starts with a nonzero digit unless
/// `n` is zero, and stands for `n`.
pub proof fn lemma_decimal_reads_back(n: nat)
    ensures
        forall|j: int| 0 <= j < decimal(n).len() ==> '0' <= #[trigger] decimal(n)[j] <= '9',
        decimal(n).len() >= 1,
        n > 0 ==> decimal(n)[0] != '0',
        n == 0 ==> decimal(n) == seq!['0'],
        digits_value(decimal(n)) == n,
    decreases n,
{
    if n < 10 {
        lemma_digit_char_value(n as int);
        let one = seq![digit_char(n as int)];
        assert(one.drop_last() =~= Seq::<char>::empty());
        assert(one.last() == digit_char(n as int));
        assert(digits_value(one) == digits_value(one.drop_last()) * 10 + (one.last() as int - '0' as int));
    } else {
        lemma_digit_char_value((n % 10) as int);
        lemma_decimal_reads_back(n / 10);
        let d = (n % 10) as int;
        let prefix = decimal(n / 10);
        assert(decimal(n) == prefix.push(digit_char(d)));
        assert(decimal(n).drop_last() =~= prefix);
        assert(decimal(n)[0] == prefix[0]);
        assert forall|j: int| 0 <= j < decimal(n).len() implies '0' <= #[trigger] decimal(n)[j] <= '9' by {
            if j < prefix.len() {
                assert(decimal(n)[j] == prefix[j]);
            }
        }
        assert(decimal(n).last() == digit_char(d));
        assert(digits_value(decimal(n)) == digits_value(prefix) * 10 + (digit_char(d) as int - '0' as int));
        assert(n == (n / 10) * 10 + n % 10);
    }
}

/// Appends the decimal numeral of `n` to `s`.
pub fn push_decimal(s: &mut String, n: u64)
    ensures
        final(s)@ == old(s)@ + decimal(n as nat),
    decreases n,
{
    if n < 10 {
        push_char(s, digit(n));
        assert(final(s)@ =~= old(s)@ + decimal(n as nat));
    } else {
        push_decimal(s, n / 10);
        push_char(s, digit(n % 10));
        assert(final(s)@ =~= old(s)@ + decimal(n as nat));
    }
}

/// The decimal numeral of `n`.
pub fn decimal_string(n: u64) -> (res: String)
    ensures
        res@ == decimal(n as nat),
{
    let mut s = String::new();
    push_decimal(&mut s, n);
    assert(s@ =~= decimal(n as nat));
    s
}

/// The phrase for a count of whole units, singular for one and plural otherwise.
pub open spec fn count_phrase(count: int, one: Seq<char>, many: Seq<char>) -> Seq<char> {
    if count == 1 {
        one
    } else {
        decimal(count as nat) + many
    }
}

/// How long ago something happened that lies `secs` whole seconds in the past: whole
/// days if there is at least one, else whole hours, else whole minutes, else "just now".
pub open spec fn elapsed_phrase_spec(secs: int) -> Seq<char> {
    if secs >= 86400 {
        count_phrase(secs / 86400, "1 day ago"@, " days ago"@)
    } else if secs >= 3600 {
        count_phrase(secs / 3600, "1 hr ago"@, " hrs ago"@)
    } else if secs >= 60 {
        count_phrase(secs / 60, "1 min ago"@, " mins ago"@)
    } else {
        "just now"@
    }
}

fn count_phrase_string(count: u64, one: &str, many: &str) -> (res: String)
    ensures
        res@ == count_phrase(count as int, one@, many@),
{
    if count == 1 {
        String::from_str(one)
    } else {
        let mut s = decimal_string(count);
        s.append(many);
        s
    }
}

/// The phrase for a time that lies `secs` whole seconds in the past.
pub fn elapsed_phrase(secs: i64) -> (res: String)
    ensures
        res@ == elapsed_phrase_spec(secs as int),
{
    let days = secs / 86400;
    if days > 0 {
        return count_phrase_string(days as u64, "1 day ago", " days ago");
    }
    let hours = secs / 3600;
    if hours > 0 {
        return count_phrase_string(hours as u64, "1 hr ago", " hrs ago");
    }
    let minutes = secs / 60;
    if minutes > 0 {
        return count_phrase_string(minutes as u64, "1 min ago", " mins ago");
    }
    String::from_str("just now")
}

#[verifier::external_type_specification]
#[verifier::external_body]
pub struct ExNaiveDateTime(chrono::NaiveDateTime);

/// Whether chrono reads `text` as a point in time: RFC 3339, with a space or `T`
/// between date and time, converted to UTC.
pub uninterp spec fn is_utc_time_text(text: Seq<char>) -> bool;

/// Calls chrono's `<DateTime<Utc> as FromStr>::from_str` and takes the UTC date and time
/// of the result (`DateTime::naive_utc`). The contract claims only that the parse
/// succeeds exactly when the text is one that chrono reads as a time; which time it
/// reads is left unsaid.
#[verifier::external_body]
fn parse_utc_time(text: &str) -> (res: Option<NaiveDateTime>)
    ensures
        res is Some <==> is_utc_time_text(text@),
{
    match text.parse::<DateTime<Utc>>() {
        Ok(t) => Some(t.naive_utc()),
        Err(_) => None,
    }
}

/// Calls chrono's `Utc::now`, `NaiveDateTime::signed_duration_since` and
/// `TimeDelta::num_seconds`: the whole seconds from `t` to the current UTC time. The
/// result depends on the clock, so the contract says nothing of it.
#[verifier::external_body]
fn whole_seconds_since(t: &NaiveDateTime) -> (res: i64) {
    Utc::now().naive_utc().signed_duration_since(*t).num_seconds()
}

/// How long ago the time written in `date_str` was; the text itself when it is not a
/// time that chrono reads.
pub fn time_ago(date_str: &str) -> (res: String)
    ensures
        !is_utc_time_text(date_str@) ==> res@ == date_str@,
        is_utc_time_text(date_str@) ==> exists|secs: i64| res@ == elapsed_phrase_spec(secs as int),
{
    match parse_utc_time(date_str) {
        Some(parsed_time) => {
            let secs = whole_seconds_since(&parsed_time);
            elapsed_phrase(secs)
        },
        None => String::from_str(date_str),
    }
}


/// How a git ref is shown: merge-request refs as `MR !<id>` (the id is what lies between
/// the prefix and `/merge`, or else up to the next `/`), branch and tag refs by their
/// short name, and any other ref as it is.
pub open spec fn format_ref_spec(r: Seq<char>) -> Seq<char> {
    let mr = "refs/merge-requests/"@;
    if starts_with(r, mr) {
        let rest = r.skip(mr.len() as int);
        if ends_with(rest, "/merge"@) {
            "MR !"@ + rest.take(rest.len() - "/merge"@.len())
        } else {
            "MR !"@ + rest.take(find_char_from(rest, '/', 0))
        }
    } else if starts_with(r, "refs/heads/"@) {
        r.skip("refs/heads/"@.len() as int)
    } else if starts_with(r, "refs/tags/"@) {
        r.skip("refs/tags/"@.len() as int)
    } else {
        r
    }
}

proof fn lemma_find_char_shift(s: Seq<char>, c: char, k: int, i: int)
    requires
        0 <= k <= s.len(),
        0 <= i <= s.len() - k,
    ensures
        find_char_from(s.skip(k), c, i) == find_char_from(s, c, k + i) - k,
    decreases s.len() - k - i,
{
    if i < s.len() - k && s.skip(k)[i] != c {
        lemma_find_char_shift(s, c, k, i + 1);
    }
}

/// The text for a git ref: `MR !<id>` for merge-request refs, the short name for branch
/// and tag refs, the ref itself otherwise.
pub fn format_ref(r: &str) -> (res: String)
    ensures
        res@ == format_ref_spec(r@),
{
    let v = chars_of(r);
    let n = v.len();
    proof {
        reveal_strlit("refs/merge-requests/");
        reveal_strlit("refs/heads/");
        reveal_strlit("refs/tags/");
        reveal_strlit("/merge");
        assert(v@.subrange(0, n as int) =~= v@);
    }
    if has_at(&v, 0, "refs/merge-requests/") {
        let ghost rest = r@.skip(20);
        if n >= 26 && has_at(&v, n - 6, "/merge") {
            assert(rest.subrange(rest.len() - 6, rest.len() as int) =~= v@.subrange(n - 6, n as int));
            assert(v@.subrange(n - 6, n as int).subrange(0, 6) =~= v@.subrange(n - 6, n as int));
            assert(rest.take(rest.len() - 6) =~= r@.subrange(20, n - 6));
            String::from_str("MR !").concat(r.substring_char(20, n - 6))
        } else {
            proof {
                if rest.len() >= 6 {
                    assert(rest.subrange(rest.len() - 6, rest.len() as int) =~= v@.subrange(n - 6, n as int));
                    assert(v@.subrange(n - 6, n as int).subrange(0, 6) =~= v@.subrange(n - 6, n as int));
                }
            }
            let slash = find_char(&v, '/', 20);
            proof {
                lemma_find_char_from(v@, '/', 20);
                lemma_find_char_shift(v@, '/', 20, 0);
                assert(rest.take(find_char_from(rest, '/', 0)) =~= r@.subrange(20, slash as int));
            }
            String::from_str("MR !").concat(r.substring_char(20, slash))
        }
    } else if has_at(&v, 0, "refs/heads/") {
        String::from_str(r.substring_char(11, n))
    } else if has_at(&v, 0, "refs/tags/") {
        String::from_str(r.substring_char(10, n))
    } else {
        String::from_str(r)
    }
}


proof fn lemma_div_in_range(secs: int, unit: int, q: int)
    requires
        unit > 0,
        q * unit <= secs < (q + 1) * unit,
    ensures
        secs / unit == q,
{
    assert(secs / unit == q) by (nonlinear_arith)
        requires
            unit > 0,
            q * unit <= secs < (q + 1) * unit,
    {
        let d = secs / unit;
        let r = secs % unit;
        assert(secs == d * unit + r && 0 <= r < unit);
        if d < q {
            assert(d * unit + r < (d + 1) * unit);
            assert((d + 1) * unit <= q * unit);
        } else if d > q {
            assert((q + 1) * unit <= d * unit);
        }
    }
}

/// How a time that lies between `n` and `n + 1` whole units in the past is phrased:
/// by that many days if `n` days have passed, else by hours, else by minutes, with the
/// singular for one unit.
pub proof fn lemma_elapsed_phrase_units(secs: int, n: int)
    requires
        n >= 1,
    ensures
        n * 86400 <= secs < (n + 1) * 86400 ==> elapsed_phrase_spec(secs) == (if n == 1 {
            "1 day ago"@
        } else {
            decimal(n as nat) + " days ago"@
        }),
        n < 24 && n * 3600 <= secs < (n + 1) * 3600 ==> elapsed_phrase_spec(secs) == (if n == 1 {
            "1 hr ago"@
        } else {
            decimal(n as nat) + " hrs ago"@
        }),
        n < 60 && n * 60 <= secs < (n + 1) * 60 ==> elapsed_phrase_spec(secs) == (if n == 1 {
            "1 min ago"@
        } else {
            decimal(n as nat) + " mins ago"@
        }),
        secs < 60 ==> elapsed_phrase_spec(secs) == "just now"@,
{
    if n * 86400 <= secs < (n + 1) * 86400 {
        lemma_div_in_range(secs, 86400, n);
        assert(secs >= 86400) by (nonlinear_arith)
            requires
                n >= 1,
                n * 86400 <= secs,
        ;
    }
    if n < 24 && n * 3600 <= secs < (n + 1) * 3600 {
        lemma_div_in_range(secs, 3600, n);
        assert(3600 <= secs < 86400) by (nonlinear_arith)
            requires
                1 <= n < 24,
                n * 3600 <= secs < (n + 1) * 3600,
        ;
    }
    if n < 60 && n * 60 <= secs < (n + 1) * 60 {
        lemma_div_in_range(secs, 60, n);
        assert(60 <= secs < 3600) by (nonlinear_arith)
            requires
                1 <= n < 60,
                n * 60 <= secs < (n + 1) * 60,
        ;
    }
}


/// Branch and tag refs are shown by their name after `refs/heads/` or `refs/tags/`.
pub proof fn lemma_format_ref_branch_and_tag(name: Seq<char>)
    ensures
        format_ref_spec("refs/heads/"@ + name) == name,
        format_ref_spec("refs/tags/"@ + name) == name,
{
    reveal_strlit("refs/merge-requests/");
    reveal_strlit("refs/heads/");
    reveal_strlit("refs/tags/");
    let h = "refs/heads/"@ + name;
    let t = "refs/tags/"@ + name;
    if starts_with(h, "refs/merge-requests/"@) {
        assert(h.subrange(0, 20)[5] == h[5]);
        assert(h[5] == 'h');
    }
    assert(h.subrange(0, 11) =~= "refs/heads/"@);
    assert(h.skip(11) =~= name);
    if starts_with(t, "refs/merge-requests/"@) {
        assert(t.subrange(0, 20)[5] == t[5]);
    }
    if starts_with(t, "refs/heads/"@) {
        assert(t.subrange(0, 11)[5] == t[5]);
    }
    assert(t.subrange(0, 10) =~= "refs/tags/"@);
    assert(t.skip(10) =~= name);
}

/// A merge-request ref `refs/merge-requests/<id>/merge` is shown as `MR !<id>`, and so
/// is `refs/merge-requests/<id>` followed by nothing or by `/` and more (as long as it
/// does not end in `/merge`), when `<id>` holds no `/`.
pub proof fn lemma_format_ref_merge_request(id: Seq<char>, tail: Seq<char>)
    ensures
        format_ref_spec("refs/merge-requests/"@ + id + "/merge"@) == "MR !"@ + id,
        (forall|j: int| 0 <= j < id.len() ==> id[j] != '/') && (tail.len() == 0 || tail[0] == '/')
            && !ends_with(id + tail, "/merge"@) ==> format_ref_spec("refs/merge-requests/"@ + id + tail)
            == "MR !"@ + id,
{
    reveal_strlit("refs/merge-requests/");
    reveal_strlit("/merge");
    let p = "refs/merge-requests/"@;
    let r = p + id + "/merge"@;
    assert(r.subrange(0, 20) =~= p);
    let rest = r.skip(20);
    assert(rest =~= id + "/merge"@);
    assert(rest.subrange(rest.len() - 6, rest.len() as int) =~= "/merge"@);
    assert(rest.take(rest.len() - 6) =~= id);
    let r2 = p + id + tail;
    assert(r2.subrange(0, 20) =~= p);
    let rest2 = r2.skip(20);
    assert(rest2 =~= id + tail);
    if (forall|j: int| 0 <= j < id.len() ==> id[j] != '/') && (tail.len() == 0 || tail[0] == '/') {
        assert forall|j: int| 0 <= j < id.len() implies rest2[j] != '/' by {
            assert(rest2[j] == id[j]);
        }
        if tail.len() > 0 {
            assert(rest2[id.len() as int] == '/');
        }
        lemma_find_char_is(rest2, '/', 0, id.len() as int);
        assert(rest2.take(id.len() as int) =~= id);
    }
}

} // verus!
