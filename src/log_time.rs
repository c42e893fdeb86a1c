//! Today's date as text, and the expansion of date placeholders in file names.

use crate::date::{decimal, digit_char, local_today, year_text, LocalDate};
use vstd::prelude::*;

verus! {

/// `s` with every occurrence of `pat`, taken from the left without overlap,
/// replaced by `rep`.
pub open spec fn replaced(s: Seq<char>, pat: Seq<char>, rep: Seq<char>) -> Seq<char>
    decreases s.len(),
{
    if s.len() == 0 || pat.len() == 0 {
        s
    } else if pat.is_prefix_of(s) {
        rep + replaced(s.skip(pat.len() as int), pat, rep)
    } else {
        seq![s[0]] + replaced(s.skip(1), pat, rep)
    }
}

/// The placeholder for the whole date `YYYYMMDD`.
pub open spec fn date_token() -> Seq<char> {
    seq!['{', 'd', '}']
}

/// The placeholder for the year.
pub open spec fn year_token() -> Seq<char> {
    seq!['{', 'y', '}']
}

/// The placeholder for the month.
pub open spec fn month_token() -> Seq<char> {
    seq!['{', 'm', '}']
}

/// The placeholder for the day of the month.
pub open spec fn day_token() -> Seq<char> {
    seq!['{', 'D', '}']
}

/// `t` with its placeholders replaced by the parts of `d`: first `{d}`, then
/// `{y}`, `{m}` and `{D}`.
pub open spec fn expanded(t: Seq<char>, d: LocalDate) -> Seq<char> {
    let s1 = replaced(t, date_token(), d.text());
    let s2 = replaced(s1, year_token(), year_text(d.spec_year()));
    let s3 = replaced(s2, month_token(), decimal(d.spec_month() as nat, 2));
    replaced(s3, day_token(), decimal(d.spec_day() as nat, 2))
}

/// No character of `s` opens a placeholder.
pub open spec fn no_brace(s: Seq<char>) -> bool {
    forall|i: int| 0 <= i < s.len() ==> s[i] != '{'
}

/// `pat` stands somewhere in `s`.
pub open spec fn occurs(pat: Seq<char>, s: Seq<char>) -> bool {
    exists|i: int| 0 <= i && i + pat.len() <= s.len() && #[trigger] s.subrange(i, i + pat.len()) == pat
}

proof fn lemma_head_kept(c: char, s: Seq<char>, pat: Seq<char>, rep: Seq<char>)
    requires
        pat.len() > 0,
        pat[0] != c,
    ensures
        replaced(seq![c] + s, pat, rep) == seq![c] + replaced(s, pat, rep),
{
    let t = seq![c] + s;
    if pat.is_prefix_of(t) {
        assert(t.subrange(0, pat.len() as int)[0] == c);
    }
    assert(t.skip(1) =~= s);
}

proof fn lemma_plain_prefix(a: Seq<char>, s: Seq<char>, pat: Seq<char>, rep: Seq<char>)
    requires
        pat.len() > 0,
        pat[0] == '{',
        no_brace(a),
    ensures
        replaced(a + s, pat, rep) == a + replaced(s, pat, rep),
    decreases a.len(),
{
    if a.len() == 0 {
        assert(a + s =~= s);
        assert(a + replaced(s, pat, rep) =~= replaced(s, pat, rep));
    } else {
        let rest = a.drop_first();
        assert(a + s =~= seq![a[0]] + (rest + s));
        lemma_head_kept(a[0], rest + s, pat, rep);
        lemma_plain_prefix(rest, s, pat, rep);
        assert(seq![a[0]] + (rest + replaced(s, pat, rep)) =~= a + replaced(s, pat, rep));
    }
}

proof fn lemma_plain(a: Seq<char>, pat: Seq<char>, rep: Seq<char>)
    requires
        pat.len() > 0,
        pat[0] == '{',
        no_brace(a),
    ensures
        replaced(a, pat, rep) == a,
{
    let e = Seq::<char>::empty();
    lemma_plain_prefix(a, e, pat, rep);
    assert(a + e =~= a);
}

proof fn lemma_token_match(s: Seq<char>, pat: Seq<char>, rep: Seq<char>)
    requires
        pat.len() > 0,
    ensures
        replaced(pat + s, pat, rep) == rep + replaced(s, pat, rep),
{
    let t = pat + s;
    assert(t.subrange(0, pat.len() as int) =~= pat);
    assert(t.skip(pat.len() as int) =~= s);
}

proof fn lemma_token_other(tok: Seq<char>, s: Seq<char>, pat: Seq<char>, rep: Seq<char>)
    requires
        tok.len() == 3,
        pat.len() == 3,
        tok[0] == '{',
        pat[0] == '{',
        tok[1] != pat[1],
        tok[1] != '{',
        tok[2] != '{',
    ensures
        replaced(tok + s, pat, rep) == tok + replaced(s, pat, rep),
{
    let t = tok + s;
    if pat.is_prefix_of(t) {
        assert(t.subrange(0, 3)[1] == tok[1]);
    }
    let tail = seq![tok[1], tok[2]];
    assert(t.skip(1) =~= tail + s);
    lemma_plain_prefix(tail, s, pat, rep);
    assert(seq![tok[0]] + (tail + replaced(s, pat, rep)) =~= tok + replaced(s, pat, rep));
}

proof fn lemma_absent(s: Seq<char>, pat: Seq<char>, rep: Seq<char>)
    requires
        pat.len() > 0,
        !occurs(pat, s),
    ensures
        replaced(s, pat, rep) == s,
    decreases s.len(),
{
    if s.len() > 0 {
        if pat.is_prefix_of(s) {
            assert(s.subrange(0int, 0int + pat.len()) =~= pat);
            assert(occurs(pat, s));
        }
        let rest = s.skip(1);
        if occurs(pat, rest) {
            let i = choose|i: int|
                0 <= i && i + pat.len() <= rest.len() && #[trigger] rest.subrange(i, i + pat.len())
                    == pat;
            assert(s.subrange(i + 1, i + 1 + pat.len()) =~= rest.subrange(i, i + pat.len()));
            assert(occurs(pat, s));
        }
        lemma_absent(rest, pat, rep);
        assert(seq![s[0]] + rest =~= s);
    }
}

proof fn lemma_decimal_no_brace(n: nat, w: nat)
    ensures
        no_brace(decimal(n, w)),
    decreases n + w,
{
    if n < 10 && w <= 1 {
        assert(digit_char(n) != '{');
    } else {
        lemma_decimal_no_brace(n / 10, if w > 0 { (w - 1) as nat } else { 0 });
        assert(digit_char(n % 10) != '{');
    }
}

proof fn lemma_date_parts_no_brace(d: LocalDate)
    ensures
        no_brace(year_text(d.spec_year())),
        no_brace(decimal(d.spec_month() as nat, 2)),
        no_brace(decimal(d.spec_day() as nat, 2)),
        no_brace(d.text()),
{
    let y = d.spec_year();
    lemma_decimal_no_brace(y as nat, 4);
    lemma_decimal_no_brace((-y) as nat, 4);
    lemma_decimal_no_brace(d.spec_month() as nat, 2);
    lemma_decimal_no_brace(d.spec_day() as nat, 2);
    assert(no_brace(year_text(y)));
}

/// Expanding a text without placeholders changes nothing: a second expansion
/// of a text whose placeholders are all gone gives it back unchanged.
pub proof fn law_expand_without_placeholders(s: Seq<char>, d: LocalDate)
    requires
        !occurs(date_token(), s),
        !occurs(year_token(), s),
        !occurs(month_token(), s),
        !occurs(day_token(), s),
    ensures
        expanded(s, d) == s,
{
    lemma_absent(s, date_token(), d.text());
    lemma_absent(s, year_token(), year_text(d.spec_year()));
    lemma_absent(s, month_token(), decimal(d.spec_month() as nat, 2));
    lemma_absent(s, day_token(), decimal(d.spec_day() as nat, 2));
}

/// Text between `{y}{m}{D}` comes out as the year, the month and the day in
/// place of the placeholders: `log{y}{m}{D}.log` becomes `log` + `YYYY` + `MM` +
/// `DD` + `.log`.
pub proof fn law_expand_date_parts(a: Seq<char>, b: Seq<char>, d: LocalDate)
    requires
        no_brace(a),
        no_brace(b),
    ensures
        expanded(a + year_token() + month_token() + day_token() + b, d) == a + year_text(
            d.spec_year(),
        ) + decimal(d.spec_month() as nat, 2) + decimal(d.spec_day() as nat, 2) + b,
{
    let (ty, tm, td) = (year_token(), month_token(), day_token());
    let yt = year_text(d.spec_year());
    let mt = decimal(d.spec_month() as nat, 2);
    let dt = decimal(d.spec_day() as nat, 2);
    lemma_date_parts_no_brace(d);
    let t = a + (ty + (tm + (td + b)));
    assert(a + ty + tm + td + b =~= t);
    // {d}: nothing to replace
    let p = date_token();
    let r = d.text();
    lemma_plain_prefix(a, ty + (tm + (td + b)), p, r);
    lemma_token_other(ty, tm + (td + b), p, r);
    lemma_token_other(tm, td + b, p, r);
    lemma_token_other(td, b, p, r);
    lemma_plain(b, p, r);
    // {y}
    lemma_plain_prefix(a, ty + (tm + (td + b)), ty, yt);
    lemma_token_match(tm + (td + b), ty, yt);
    lemma_token_other(tm, td + b, ty, yt);
    lemma_token_other(td, b, ty, yt);
    lemma_plain(b, ty, yt);
    // {m}
    lemma_plain_prefix(a, yt + (tm + (td + b)), tm, mt);
    lemma_plain_prefix(yt, tm + (td + b), tm, mt);
    lemma_token_match(td + b, tm, mt);
    lemma_token_other(td, b, tm, mt);
    lemma_plain(b, tm, mt);
    // {D}
    lemma_plain_prefix(a, yt + (mt + (td + b)), td, dt);
    lemma_plain_prefix(yt, mt + (td + b), td, dt);
    lemma_plain_prefix(mt, td + b, td, dt);
    lemma_token_match(b, td, dt);
    lemma_plain(b, td, dt);
    assert(a + (yt + (mt + (dt + b))) =~= a + yt + mt + dt + b);
}

/// `{d}` stands for the year, the month and the day in a row: it expands as
/// `{y}{m}{D}` does.
pub proof fn law_date_token_is_parts(a: Seq<char>, b: Seq<char>, d: LocalDate)
    requires
        no_brace(a),
        no_brace(b),
    ensures
        expanded(a + date_token() + b, d) == expanded(
            a + year_token() + month_token() + day_token() + b,
            d,
        ),
{
    law_expand_date_parts(a, b, d);
    lemma_date_parts_no_brace(d);
    let r = d.text();
    let t = a + (date_token() + b);
    assert(a + date_token() + b =~= t);
    lemma_plain_prefix(a, date_token() + b, date_token(), r);
    lemma_token_match(b, date_token(), r);
    lemma_plain(b, date_token(), r);
    let s1 = a + (r + b);
    assert forall|i: int| 0 <= i < s1.len() implies s1[i] != '{' by {
        if i < a.len() {
        } else if i < a.len() + r.len() {
            assert(s1[i] == r[i - a.len()]);
        } else {
            assert(s1[i] == b[i - a.len() - r.len()]);
        }
    }
    lemma_plain(s1, year_token(), year_text(d.spec_year()));
    lemma_plain(s1, month_token(), decimal(d.spec_month() as nat, 2));
    lemma_plain(s1, day_token(), decimal(d.spec_day() as nat, 2));
    assert(s1 =~= a + year_text(d.spec_year()) + decimal(d.spec_month() as nat, 2) + decimal(
        d.spec_day() as nat,
        2,
    ) + b);
}

/// Expanding `{y}{m}{D}` between plain text a second time changes nothing.
pub proof fn law_expand_twice_date_parts(a: Seq<char>, b: Seq<char>, d: LocalDate)
    requires
        no_brace(a),
        no_brace(b),
    ensures
        expanded(expanded(a + year_token() + month_token() + day_token() + b, d), d) == expanded(
            a + year_token() + month_token() + day_token() + b,
            d,
        ),
{
    law_expand_date_parts(a, b, d);
    lemma_date_parts_no_brace(d);
    let e = a + year_text(d.spec_year()) + decimal(d.spec_month() as nat, 2) + decimal(
        d.spec_day() as nat,
        2,
    ) + b;
    assert forall|i: int| 0 <= i < e.len() implies e[i] != '{' by {
        let yt = year_text(d.spec_year());
        let mt = decimal(d.spec_month() as nat, 2);
        let dt = decimal(d.spec_day() as nat, 2);
        if i < a.len() {
        } else if i < a.len() + yt.len() {
            assert(e[i] == yt[i - a.len()]);
        } else if i < a.len() + yt.len() + mt.len() {
            assert(e[i] == mt[i - a.len() - yt.len()]);
        } else if i < a.len() + yt.len() + mt.len() + dt.len() {
            assert(e[i] == dt[i - a.len() - yt.len() - mt.len()]);
        } else {
            assert(e[i] == b[i - a.len() - yt.len() - mt.len() - dt.len()]);
        }
    }
    lemma_plain(e, date_token(), d.text());
    lemma_plain(e, year_token(), year_text(d.spec_year()));
    lemma_plain(e, month_token(), decimal(d.spec_month() as nat, 2));
    lemma_plain(e, day_token(), decimal(d.spec_day() as nat, 2));
}

/// Relies on regex::escape, regex::Regex::new and regex::Regex::replace_all
/// with regex::NoExpand: a pattern made by escaping a literal matches exactly
/// that literal, and every leftmost non-overlapping match is replaced by the
/// replacement text taken as it is.
#[verifier::external_body]
fn replace_literal(text: &str, token: &str, value: &str) -> (r: String)
    requires
        1 <= token@.len() <= 16,
    ensures
        r@ == replaced(text@, token@, value@),
{
    let re = regex::Regex::new(&regex::escape(token)).unwrap();
    re.replace_all(text, regex::NoExpand(value)).into_owned()
}

/// Helpers for date text.
pub struct LogTime {}

impl LogTime {
    /// Today's local date as `YYYYMMDD`.
    pub fn standard_date() -> (r: String)
        ensures
            exists|d: LocalDate| d.wf() && r@ == d.text(),
    {
        let today = local_today();
        today.to_text()
    }

    /// `time_var` with the placeholders `{d}`, `{y}`, `{m}` and `{D}` replaced
    /// by the parts of `date`, in that order.
    pub fn expand_time_var_on(time_var: &str, date: &LocalDate) -> (r: String)
        ensures
            r@ == expanded(time_var@, *date),
    {
        proof {
            reveal_strlit("{d}");
            reveal_strlit("{y}");
            reveal_strlit("{m}");
            reveal_strlit("{D}");
            assert("{d}"@ =~= date_token());
            assert("{y}"@ =~= year_token());
            assert("{m}"@ =~= month_token());
            assert("{D}"@ =~= day_token());
        }
        let whole = date.to_text();
        let s1 = replace_literal(time_var, "{d}", whole.as_str());
        let year = date.year_string();
        let s2 = replace_literal(s1.as_str(), "{y}", year.as_str());
        let month = date.month_string();
        let s3 = replace_literal(s2.as_str(), "{m}", month.as_str());
        let day = date.day_string();
        replace_literal(s3.as_str(), "{D}", day.as_str())
    }

    /// `time_var` with its placeholders replaced by today's local date.
    pub fn expand_time_var(time_var: &str) -> (r: String)
        ensures
            exists|d: LocalDate| d.wf() && r@ == expanded(time_var@, d),
    {
        let today = local_today();
        Self::expand_time_var_on(time_var, &today)
    }
}

} // verus!
