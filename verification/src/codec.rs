//! The persisted JSON form of `BotConfig`, as the library itself defines it:
//! a single flat object, encoded canonically and decoded strictly.
//!
//! `encode_config` produces exactly `config_chars`; `decode_config` accepts
//! exactly such canonical texts and recovers the fields. Decoding anything
//! else yields `None`, which the configuration store treats as a corrupt
//! file and replaces with defaults.

use vstd::prelude::*;
use vstd::string::{StrSliceExecFns, StringExecFns};
use crate::calendar;
use crate::config::{text_ok, texts_ok, BotConfig};
use crate::datetime::TimeOfDay;
use crate::dates::{digit_val, is_digit};
use crate::strutil::{push_char, spec_digit_char};

verus! {

// ---------------------------------------------------------------------------
// The canonical form, as sequences of characters.
// ---------------------------------------------------------------------------

/// A character as it appears inside a JSON string: quote and backslash are
/// escaped, everything else stands for itself.
pub open spec fn esc_char(c: char) -> Seq<char> {
    if c == '"' {
        seq!['\\', '"']
    } else if c == '\\' {
        seq!['\\', '\\']
    } else {
        seq![c]
    }
}

/// A text escaped for a JSON string body.
pub open spec fn esc_str(t: Seq<char>) -> Seq<char>
    decreases t.len(),
{
    if t.len() == 0 {
        Seq::empty()
    } else {
        esc_char(t.first()) + esc_str(t.drop_first())
    }
}

/// A quoted JSON string.
pub open spec fn quoted(t: Seq<char>) -> Seq<char> {
    seq!['"'] + esc_str(t) + seq!['"']
}

/// The decimal digits of a nonnegative number, most significant first.
pub open spec fn dec_digits(n: int) -> Seq<char>
    decreases n,
{
    if n < 10 {
        seq![spec_digit_char(n)]
    } else {
        dec_digits(n / 10).push(spec_digit_char(n % 10))
    }
}

/// The eight characters of an `HH:MM:SS` rendering.
pub open spec fn time_chars(t: TimeOfDay) -> Seq<char> {
    seq![
        spec_digit_char(t.hour as int / 10),
        spec_digit_char(t.hour as int % 10),
        ':',
        spec_digit_char(t.minute as int / 10),
        spec_digit_char(t.minute as int % 10),
        ':',
        spec_digit_char(t.second as int / 10),
        spec_digit_char(t.second as int % 10),
    ]
}

/// The members of a JSON string list, separated by commas.
pub open spec fn list_inner(v: Seq<Seq<char>>) -> Seq<char>
    decreases v.len(),
{
    if v.len() == 0 {
        Seq::empty()
    } else if v.len() == 1 {
        quoted(v.first())
    } else {
        quoted(v.first()) + seq![','] + list_inner(v.drop_first())
    }
}

/// A JSON list of strings.
pub open spec fn list_chars(v: Seq<Seq<char>>) -> Seq<char> {
    seq!['['] + list_inner(v) + seq![']']
}

/// An optional token: `null`, or a quoted string.
pub open spec fn token_chars(t: Option<Seq<char>>) -> Seq<char> {
    match t {
        None => "null"@,
        Some(s) => quoted(s),
    }
}

/// The views of a configuration's fields: what the persisted form carries.
pub struct ConfigModel {
    pub members: Seq<Seq<char>>,
    pub selected: Seq<Seq<char>>,
    pub channel: Seq<char>,
    pub target_time: TimeOfDay,
    pub advance_days: int,
    pub post_time: TimeOfDay,
    pub instant_delay: int,
    pub token: Option<Seq<char>>,
    pub id: Seq<char>,
}

/// The model a configuration value denotes.
pub open spec fn model_of(c: BotConfig) -> ConfigModel {
    ConfigModel {
        members: c.members@.map_values(|s: String| s@),
        selected: c.selected@.map_values(|s: String| s@),
        channel: c.channel@,
        target_time: c.target_time,
        advance_days: c.advance_days as int,
        post_time: c.post_time,
        instant_delay: c.instant_delay as int,
        token: match c.token {
            Some(t) => Some(t@),
            None => None,
        },
        id: c.id@,
    }
}

/// The canonical persisted text of a configuration model.
pub open spec fn model_chars(m: ConfigModel) -> Seq<char> {
    "{\"members\":"@ + list_chars(m.members) + ",\"selected\":"@ + list_chars(m.selected)
        + ",\"channel\":"@ + quoted(m.channel) + ",\"target_time\":\""@ + time_chars(
        m.target_time,
    ) + "\",\"advance_days\":"@ + dec_digits(m.advance_days) + ",\"post_time\":\""@ + time_chars(
        m.post_time,
    ) + "\",\"instant_delay\":"@ + dec_digits(m.instant_delay) + ",\"token\":"@ + token_chars(
        m.token,
    ) + ",\"id\":"@ + quoted(m.id) + "}"@
}

/// The canonical persisted text of a configuration.
pub open spec fn config_chars(c: BotConfig) -> Seq<char> {
    model_chars(model_of(c))
}

// ---------------------------------------------------------------------------
// Encoding.
// ---------------------------------------------------------------------------

fn append_escaped(out: &mut String, t: &str)
    ensures
        final(out)@ == old(out)@ + esc_str(t@),
{
    let ghost start = out@;
    proof {
        assert(t@.skip(0) =~= t@);
    }
    let n = t.unicode_len();
    let mut i: usize = 0;
    while i < n
        invariant
            i <= n,
            n == t@.len(),
            start + esc_str(t@) == out@ + esc_str(t@.skip(i as int)),
        decreases n - i,
    {
        let ghost prev = out@;
        let c = t.get_char(i);
        if c == '"' {
            push_char(out, '\\');
            push_char(out, '"');
        } else if c == '\\' {
            push_char(out, '\\');
            push_char(out, '\\');
        } else {
            push_char(out, c);
        }
        proof {
            assert(out@ =~= prev + esc_char(t@[i as int]));
            assert(t@.skip(i as int).first() == t@[i as int]);
            assert(t@.skip(i as int).drop_first() =~= t@.skip(i as int + 1));
            assert(esc_str(t@.skip(i as int)) =~= esc_char(t@[i as int]) + esc_str(
                t@.skip(i as int + 1),
            ));
            assert(start + esc_str(t@) =~= out@ + esc_str(t@.skip(i as int + 1)));
        }
        i = i + 1;
    }
    proof {
        assert(t@.skip(n as int) =~= Seq::<char>::empty());
        assert(esc_str(t@.skip(n as int)) =~= Seq::<char>::empty());
        assert(out@ =~= start + esc_str(t@));
    }
}

fn append_quoted(out: &mut String, t: &str)
    ensures
        final(out)@ == old(out)@ + quoted(t@),
{
    push_char(out, '"');
    append_escaped(out, t);
    push_char(out, '"');
    proof {
        assert(out@ =~= old(out)@ + quoted(t@));
    }
}

fn append_number(out: &mut String, n: u64)
    ensures
        final(out)@ == old(out)@ + dec_digits(n as int),
    decreases n,
{
    if n < 10 {
        push_char(out, crate::strutil::digit_char_of(n as u32));
    } else {
        append_number(out, n / 10);
        push_char(out, crate::strutil::digit_char_of((n % 10) as u32));
    }
}

fn append_time(out: &mut String, t: TimeOfDay)
    requires
        t.wf(),
    ensures
        final(out)@ == old(out)@ + time_chars(t),
{
    push_char(out, crate::strutil::digit_char_of(t.hour as u32 / 10));
    push_char(out, crate::strutil::digit_char_of(t.hour as u32 % 10));
    push_char(out, ':');
    push_char(out, crate::strutil::digit_char_of(t.minute as u32 / 10));
    push_char(out, crate::strutil::digit_char_of(t.minute as u32 % 10));
    push_char(out, ':');
    push_char(out, crate::strutil::digit_char_of(t.second as u32 / 10));
    push_char(out, crate::strutil::digit_char_of(t.second as u32 % 10));
    proof {
        assert(out@ =~= old(out)@ + time_chars(t));
    }
}

fn append_list(out: &mut String, v: &Vec<String>)
    ensures
        final(out)@ == old(out)@ + list_chars(v@.map_values(|s: String| s@)),
{
    let ghost items = v@.map_values(|s: String| s@);
    push_char(out, '[');
    let ghost start = out@;
    proof {
        assert(items.skip(0) =~= items);
    }
    let mut i: usize = 0;
    while i < v.len()
        invariant
            i <= v@.len(),
            items == v@.map_values(|s: String| s@),
            items.len() == v@.len(),
            start + list_inner(items) == out@ + list_inner(items.skip(i as int)),
        decreases v@.len() - i,
    {
        proof {
            assert(items.skip(i as int).first() == items[i as int]);
            assert(items[i as int] == v@[i as int]@);
            assert(items.skip(i as int).drop_first() =~= items.skip(i as int + 1));
        }
        append_quoted(out, v[i].as_str());
        if i + 1 < v.len() {
            push_char(out, ',');
            proof {
                assert(items.skip(i as int).len() >= 2);
                assert(list_inner(items.skip(i as int)) =~= quoted(items[i as int]) + seq![',']
                    + list_inner(items.skip(i as int + 1)));
            }
        } else {
            proof {
                assert(items.skip(i as int).len() == 1);
                assert(list_inner(items.skip(i as int)) =~= quoted(items[i as int]));
                assert(items.skip(i as int + 1) =~= Seq::<Seq<char>>::empty());
            }
        }
        i = i + 1;
    }
    proof {
        assert(items.skip(v@.len() as int) =~= Seq::<Seq<char>>::empty());
    }
    push_char(out, ']');
    proof {
        assert(out@ =~= old(out)@ + list_chars(items));
    }
}

/// Renders a configuration in its canonical persisted JSON form.
pub fn encode_config(c: &BotConfig) -> (r: String)
    requires
        c.wf(),
    ensures
        r@ == config_chars(*c),
{
    let mut out = String::new();
    out.append("{\"members\":");
    append_list(&mut out, &c.members);
    out.append(",\"selected\":");
    append_list(&mut out, &c.selected);
    out.append(",\"channel\":");
    append_quoted(&mut out, c.channel.as_str());
    out.append(",\"target_time\":\"");
    append_time(&mut out, c.target_time);
    out.append("\",\"advance_days\":");
    append_number(&mut out, c.advance_days as u64);
    out.append(",\"post_time\":\"");
    append_time(&mut out, c.post_time);
    out.append("\",\"instant_delay\":");
    append_number(&mut out, c.instant_delay as u64);
    out.append(",\"token\":");
    match &c.token {
        Some(t) => append_quoted(&mut out, t.as_str()),
        None => out.append("null"),
    }
    out.append(",\"id\":");
    append_quoted(&mut out, c.id.as_str());
    out.append("}");
    proof {
        assert(out@ =~= config_chars(*c));
    }
    out
}

// ---------------------------------------------------------------------------
// Decoding: spec-level parsers over (text, position).
// ---------------------------------------------------------------------------

/// Consumes an exact literal.
pub open spec fn p_lit(s: Seq<char>, i: int, lit: Seq<char>) -> Option<int> {
    if 0 <= i && i + lit.len() <= s.len() && s.subrange(i, i + lit.len()) == lit {
        Some(i + lit.len())
    } else {
        None
    }
}

/// Consumes a JSON string body up to, but not including, the closing quote,
/// undoing the quote and backslash escapes and refusing raw control
/// characters.
pub open spec fn p_str_body(s: Seq<char>, i: int) -> Option<(Seq<char>, int)>
    decreases s.len() - i,
{
    if i < 0 || i >= s.len() {
        None
    } else {
        let c = s[i];
        if c == '"' {
            Some((Seq::empty(), i))
        } else if c == '\\' {
            if i + 1 < s.len() && (s[i + 1] == '"' || s[i + 1] == '\\') {
                match p_str_body(s, i + 2) {
                    Some(tj) => Some((seq![s[i + 1]] + tj.0, tj.1)),
                    None => None,
                }
            } else {
                None
            }
        } else if (c as u32) < 32 {
            None
        } else {
            match p_str_body(s, i + 1) {
                Some(tj) => Some((seq![c] + tj.0, tj.1)),
                None => None,
            }
        }
    }
}

/// Consumes a quoted JSON string.
pub open spec fn p_quoted(s: Seq<char>, i: int) -> Option<(Seq<char>, int)> {
    if 0 <= i < s.len() && s[i] == '"' {
        match p_str_body(s, i + 1) {
            Some(tj) => {
                if tj.1 < s.len() && s[tj.1] == '"' {
                    Some((tj.0, tj.1 + 1))
                } else {
                    None
                }
            },
            None => None,
        }
    } else {
        None
    }
}

/// The first position at or after `i` that does not hold a digit.
pub open spec fn p_scan_digits(s: Seq<char>, i: int) -> int
    decreases s.len() - i,
{
    if i < 0 || i >= s.len() || !is_digit(s[i]) {
        i
    } else {
        p_scan_digits(s, i + 1)
    }
}

/// The number a digit sequence denotes.
pub open spec fn num_val(ds: Seq<char>) -> int
    decreases ds.len(),
{
    if ds.len() == 0 {
        0
    } else {
        num_val(ds.drop_last()) * 10 + digit_val(ds.last())
    }
}

/// Consumes a nonnegative decimal number of at most 15 digits.
pub open spec fn p_number(s: Seq<char>, i: int) -> Option<(int, int)> {
    let j = p_scan_digits(s, i);
    if j == i || j - i > 15 {
        None
    } else {
        Some((num_val(s.subrange(i, j)), j))
    }
}

/// Consumes eight characters of a valid `HH:MM:SS` time.
pub open spec fn p_time(s: Seq<char>, i: int) -> Option<(TimeOfDay, int)> {
    if 0 <= i && i + 8 <= s.len() && crate::dates::time_str_ok(s.subrange(i, i + 8)) {
        Some(
            (
                TimeOfDay {
                    hour: crate::dates::time_str_hour(s.subrange(i, i + 8)) as u8,
                    minute: crate::dates::time_str_minute(s.subrange(i, i + 8)) as u8,
                    second: crate::dates::time_str_second(s.subrange(i, i + 8)) as u8,
                },
                i + 8,
            ),
        )
    } else {
        None
    }
}

/// Consumes the elements of a nonempty string list, after the opening
/// bracket, including the closing bracket.
pub open spec fn p_list_rest(s: Seq<char>, i: int) -> Option<(Seq<Seq<char>>, int)>
    decreases s.len() - i,
{
    match p_quoted(s, i) {
        Some(tj) => {
            if tj.1 <= i || tj.1 >= s.len() {
                None
            } else if s[tj.1] == ',' {
                match p_list_rest(s, tj.1 + 1) {
                    Some(vk) => Some((seq![tj.0] + vk.0, vk.1)),
                    None => None,
                }
            } else if s[tj.1] == ']' {
                Some((seq![tj.0], tj.1 + 1))
            } else {
                None
            }
        },
        None => None,
    }
}

/// Consumes a JSON list of strings.
pub open spec fn p_list(s: Seq<char>, i: int) -> Option<(Seq<Seq<char>>, int)> {
    if 0 <= i < s.len() && s[i] == '[' {
        if i + 1 < s.len() && s[i + 1] == ']' {
            Some((Seq::empty(), i + 2))
        } else {
            p_list_rest(s, i + 1)
        }
    } else {
        None
    }
}

/// Consumes `null` or a quoted string.
pub open spec fn p_token(s: Seq<char>, i: int) -> Option<(Option<Seq<char>>, int)> {
    match p_lit(s, i, "null"@) {
        Some(j) => Some((None, j)),
        None => match p_quoted(s, i) {
            Some(tj) => Some((Some(tj.0), tj.1)),
            None => None,
        },
    }
}

/// The model a persisted text denotes: `Some` exactly for a full canonical
/// encoding whose numbers lie in the configuration's ranges.
pub open spec fn spec_decode(s: Seq<char>) -> Option<ConfigModel> {
    match p_lit(s, 0, "{\"members\":"@) {
        None => None,
        Some(i1) => match p_list(s, i1) {
            None => None,
            Some(members_i) => match p_lit(s, members_i.1, ",\"selected\":"@) {
                None => None,
                Some(i2) => match p_list(s, i2) {
                    None => None,
                    Some(selected_i) => spec_decode_mid(
                        s,
                        members_i.0,
                        selected_i.0,
                        selected_i.1,
                    ),
                },
            },
        },
    }
}

/// The middle of `spec_decode`: the channel, the two times of day and the
/// advance-days offset.
pub open spec fn spec_decode_mid(
    s: Seq<char>,
    members: Seq<Seq<char>>,
    selected: Seq<Seq<char>>,
    i: int,
) -> Option<ConfigModel> {
    match p_lit(s, i, ",\"channel\":"@) {
        None => None,
        Some(i3) => match p_quoted(s, i3) {
            None => None,
            Some(channel_i) => match p_lit(s, channel_i.1, ",\"target_time\":\""@) {
                None => None,
                Some(i4) => match p_time(s, i4) {
                    None => None,
                    Some(tt_i) => match p_lit(s, tt_i.1, "\",\"advance_days\":"@) {
                        None => None,
                        Some(i5) => match p_number(s, i5) {
                            None => None,
                            Some(adv_i) => match p_lit(s, adv_i.1, ",\"post_time\":\""@) {
                                None => None,
                                Some(i6) => match p_time(s, i6) {
                                    None => None,
                                    Some(pt_i) => spec_decode_tail(
                                        s,
                                        members,
                                        selected,
                                        channel_i.0,
                                        tt_i.0,
                                        adv_i.0,
                                        pt_i.0,
                                        pt_i.1,
                                    ),
                                },
                            },
                        },
                    },
                },
            },
        },
    }
}

/// The remainder of `spec_decode`, from the instant-delay field on.
pub open spec fn spec_decode_tail(
    s: Seq<char>,
    members: Seq<Seq<char>>,
    selected: Seq<Seq<char>>,
    channel: Seq<char>,
    target_time: TimeOfDay,
    advance_days: int,
    post_time: TimeOfDay,
    i: int,
) -> Option<ConfigModel> {
    match p_lit(s, i, "\",\"instant_delay\":"@) {
        None => None,
        Some(i7) => match p_number(s, i7) {
            None => None,
            Some(del_i) => match p_lit(s, del_i.1, ",\"token\":"@) {
                None => None,
                Some(i8) => match p_token(s, i8) {
                    None => None,
                    Some(tok_i) => match p_lit(s, tok_i.1, ",\"id\":"@) {
                        None => None,
                        Some(i9) => match p_quoted(s, i9) {
                            None => None,
                            Some(id_i) => match p_lit(s, id_i.1, "}"@) {
                                None => None,
                                Some(end) => {
                                    if end == s.len() && 0 <= advance_days
                                        <= calendar::DAY_INDEX_CEIL as int && 0 <= del_i.0
                                        <= 1_000_000_000 {
                                        Some(
                                            ConfigModel {
                                                members,
                                                selected,
                                                channel,
                                                target_time,
                                                advance_days,
                                                post_time,
                                                instant_delay: del_i.0,
                                                token: tok_i.0,
                                                id: id_i.0,
                                            },
                                        )
                                    } else {
                                        None
                                    }
                                },
                            },
                        },
                    },
                },
            },
        },
    }
}

// ---------------------------------------------------------------------------
// Facts about the parsers.
// ---------------------------------------------------------------------------

/// A parsed string body ends at its closing quote, within the text.
pub proof fn lemma_p_str_body_bounds(s: Seq<char>, i: int)
    requires
        p_str_body(s, i) is Some,
    ensures
        i <= p_str_body(s, i)->Some_0.1 < s.len(),
        s[p_str_body(s, i)->Some_0.1] == '"',
    decreases s.len() - i,
{
    let c = s[i];
    if c == '"' {
    } else if c == '\\' {
        lemma_p_str_body_bounds(s, i + 2);
    } else {
        lemma_p_str_body_bounds(s, i + 1);
    }
}

/// A parsed string body holds no control characters.
pub proof fn lemma_p_str_body_text_ok(s: Seq<char>, i: int)
    requires
        p_str_body(s, i) is Some,
    ensures
        text_ok(p_str_body(s, i)->Some_0.0),
    decreases s.len() - i,
{
    let c = s[i];
    if c == '"' {
    } else if c == '\\' {
        lemma_p_str_body_text_ok(s, i + 2);
    } else {
        lemma_p_str_body_text_ok(s, i + 1);
    }
}

/// Every string of a parsed list holds no control characters.
pub proof fn lemma_p_list_rest_text_ok(s: Seq<char>, i: int)
    requires
        p_list_rest(s, i) is Some,
    ensures
        forall|k: int|
            0 <= k < p_list_rest(s, i)->Some_0.0.len() ==> text_ok(
                #[trigger] p_list_rest(s, i)->Some_0.0[k],
            ),
    decreases s.len() - i,
{
    let tj = p_quoted(s, i)->Some_0;
    lemma_p_str_body_text_ok(s, i + 1);
    if tj.1 < s.len() && s[tj.1] == ',' {
        lemma_p_list_rest_text_ok(s, tj.1 + 1);
    }
}

/// Powers of ten.
pub open spec fn pow10(n: nat) -> int
    decreases n,
{
    if n == 0 {
        1
    } else {
        10 * pow10((n - 1) as nat)
    }
}

/// The value of a digit sequence is bounded by the power of ten of its
/// length.
pub proof fn lemma_num_val_bound(ds: Seq<char>)
    requires
        forall|k: int| 0 <= k < ds.len() ==> is_digit(#[trigger] ds[k]),
    ensures
        0 <= num_val(ds) < pow10(ds.len() as nat),
    decreases ds.len(),
{
    if ds.len() > 0 {
        assert(forall|k: int|
            0 <= k < ds.drop_last().len() ==> is_digit(#[trigger] ds.drop_last()[k]));
        lemma_num_val_bound(ds.drop_last());
        assert(is_digit(ds.last()));
    }
}

// ---------------------------------------------------------------------------
// Decoding: the executable parser, refined against the spec parsers.
// ---------------------------------------------------------------------------

fn e_lit(s: &str, i: usize, lit: &str) -> (r: Option<usize>)
    requires
        i <= s@.len(),
    ensures
        match p_lit(s@, i as int, lit@) {
            None => r is None,
            Some(j) => r matches Some(je) && je as int == j && je <= s@.len(),
        },
{
    let n = s.unicode_len();
    let m = lit.unicode_len();
    if n - i < m {
        return None;
    }
    let mut k: usize = 0;
    while k < m
        invariant
            k <= m,
            m == lit@.len(),
            n == s@.len(),
            i + m <= n,
            forall|q: int| 0 <= q < k ==> s@[i + q] == lit@[q],
        decreases m - k,
    {
        if s.get_char(i + k) != lit.get_char(k) {
            proof {
                assert(s@.subrange(i as int, i as int + m as int)[k as int] != lit@[k as int]);
            }
            return None;
        }
        k = k + 1;
    }
    proof {
        assert(s@.subrange(i as int, i as int + m as int) =~= lit@);
    }
    Some(i + m)
}

fn e_str_body(s: &str, i: usize) -> (r: Option<(String, usize)>)
    requires
        i <= s@.len(),
    ensures
        match p_str_body(s@, i as int) {
            None => r is None,
            Some(sp) => r matches Some(ex) && ex.0@ == sp.0 && ex.1 as int == sp.1 && ex.1
                < s@.len(),
        },
    decreases s@.len() - i,
{
    proof {
        if p_str_body(s@, i as int) is Some {
            lemma_p_str_body_bounds(s@, i as int);
        }
    }
    let n = s.unicode_len();
    if i >= n {
        return None;
    }
    let c = s.get_char(i);
    if c == '"' {
        return Some((String::new(), i));
    }
    if c == '\\' {
        if i + 1 < n {
            let c2 = s.get_char(i + 1);
            if c2 == '"' || c2 == '\\' {
                return match e_str_body(s, i + 2) {
                    Some((t, j)) => {
                        let mut out = String::new();
                        push_char(&mut out, c2);
                        out.append(t.as_str());
                        proof {
                            assert(out@ =~= seq![s@[i as int + 1]] + t@);
                        }
                        Some((out, j))
                    },
                    None => None,
                };
            }
        }
        return None;
    }
    if (c as u32) < 32 {
        return None;
    }
    match e_str_body(s, i + 1) {
        Some((t, j)) => {
            let mut out = String::new();
            push_char(&mut out, c);
            out.append(t.as_str());
            proof {
                assert(out@ =~= seq![s@[i as int]] + t@);
            }
            Some((out, j))
        },
        None => None,
    }
}

fn e_quoted(s: &str, i: usize) -> (r: Option<(String, usize)>)
    requires
        i <= s@.len(),
    ensures
        match p_quoted(s@, i as int) {
            None => r is None,
            Some(sp) => r matches Some(ex) && ex.0@ == sp.0 && ex.1 as int == sp.1 && ex.1
                <= s@.len(),
        },
{
    let n = s.unicode_len();
    if i >= n || s.get_char(i) != '"' {
        return None;
    }
    match e_str_body(s, i + 1) {
        Some((t, j)) => {
            if j < n && s.get_char(j) == '"' {
                Some((t, j + 1))
            } else {
                None
            }
        },
        None => None,
    }
}

fn e_number(s: &str, i: usize) -> (r: Option<(u64, usize)>)
    requires
        i <= s@.len(),
    ensures
        match p_number(s@, i as int) {
            None => r is None,
            Some(sp) => r matches Some(ex) && ex.0 as int == sp.0 && ex.1 as int == sp.1 && ex.1
                <= s@.len(),
        },
{
    let n = s.unicode_len();
    let mut k: usize = i;
    let mut acc: u64 = 0;
    while k < n && k - i <= 15 && s.get_char(k) as u32 >= 48 && s.get_char(k) as u32 <= 57
        invariant
            i <= k <= n,
            n == s@.len(),
            k - i <= 16,
            forall|q: int| i <= q < k ==> is_digit(#[trigger] s@[q]),
            acc as int == num_val(s@.subrange(i as int, k as int)),
            p_scan_digits(s@, i as int) == p_scan_digits(s@, k as int),
        decreases n - k,
    {
        let d = s.get_char(k) as u32 - 48;
        proof {
            assert(s@.subrange(i as int, k as int).len() <= 15);
            assert(forall|q: int|
                0 <= q < s@.subrange(i as int, k as int).len() ==> is_digit(
                    #[trigger] s@.subrange(i as int, k as int)[q],
                ));
            lemma_num_val_bound(s@.subrange(i as int, k as int));
            assert(pow10(15) == 1_000_000_000_000_000) by {
                reveal_with_fuel(pow10, 16);
            }
            assert(pow10(s@.subrange(i as int, k as int).len() as nat) <= pow10(15)) by {
                lemma_pow10_mono(s@.subrange(i as int, k as int).len() as nat, 15);
            }
            assert(s@.subrange(i as int, k as int + 1).drop_last() =~= s@.subrange(
                i as int,
                k as int,
            ));
        }
        acc = acc * 10 + d as u64;
        k = k + 1;
    }
    proof {
        if k < n && k - i <= 15 && is_digit(s@[k as int]) {
            assert(48 <= s@[k as int] as u32 <= 57);
        }
    }
    if k == i {
        return None;
    }
    if k - i > 15 {
        proof {
            assert(p_scan_digits(s@, k as int) >= k as int) by {
                lemma_p_scan_digits_bounds(s@, k as int);
            }
        }
        return None;
    }
    proof {
        assert(p_scan_digits(s@, k as int) == k as int);
    }
    Some((acc, k))
}

/// The digit scan never moves backwards.
pub proof fn lemma_p_scan_digits_bounds(s: Seq<char>, i: int)
    ensures
        p_scan_digits(s, i) >= i,
        p_scan_digits(s, i) <= s.len() || p_scan_digits(s, i) == i,
    decreases s.len() - i,
{
    if !(i < 0 || i >= s.len() || !is_digit(s[i])) {
        lemma_p_scan_digits_bounds(s, i + 1);
    }
}

/// `pow10` grows with the exponent.
pub proof fn lemma_pow10_mono(a: nat, b: nat)
    requires
        a <= b,
    ensures
        pow10(a) <= pow10(b),
        pow10(a) >= 1,
    decreases b,
{
    if a < b {
        lemma_pow10_mono(a, (b - 1) as nat);
    } else if b > 0 {
        lemma_pow10_mono((a - 1) as nat, (b - 1) as nat);
    }
}

fn e_time(s: &str, i: usize) -> (r: Option<(TimeOfDay, usize)>)
    requires
        i <= s@.len(),
    ensures
        match p_time(s@, i as int) {
            None => r is None,
            Some(sp) => r matches Some(ex) && ex.0 == sp.0 && ex.1 as int == sp.1 && ex.1
                <= s@.len(),
        },
{
    let n = s.unicode_len();
    if n - i < 8 {
        return None;
    }
    let sub = s.substring_char(i, i + 8);
    match crate::dates::parse_time(sub) {
        Some(t) => Some((t, i + 8)),
        None => None,
    }
}

fn e_list_rest(s: &str, i: usize) -> (r: Option<(Vec<String>, usize)>)
    requires
        i <= s@.len(),
    ensures
        match p_list_rest(s@, i as int) {
            None => r is None,
            Some(sp) => r matches Some(ex) && ex.0@.map_values(|t: String| t@) == sp.0 && ex.1
                as int == sp.1 && ex.1 <= s@.len(),
        },
    decreases s@.len() - i,
{
    let n = s.unicode_len();
    let (t, j) = match e_quoted(s, i) {
        Some(tj) => tj,
        None => {
            return None;
        },
    };
    if j <= i || j >= n {
        return None;
    }
    let c = s.get_char(j);
    if c == ',' {
        match e_list_rest(s, j + 1) {
            Some((mut v, k)) => {
                let ghost rest = v@;
                v.insert(0, t);
                proof {
                    assert(v@.map_values(|q: String| q@) =~= seq![p_quoted(s@, i as int)->Some_0.0]
                        + rest.map_values(|q: String| q@));
                }
                Some((v, k))
            },
            None => None,
        }
    } else if c == ']' {
        let mut v: Vec<String> = Vec::new();
        v.push(t);
        proof {
            assert(v@.map_values(|q: String| q@) =~= seq![p_quoted(s@, i as int)->Some_0.0]);
        }
        Some((v, j + 1))
    } else {
        None
    }
}

fn e_list(s: &str, i: usize) -> (r: Option<(Vec<String>, usize)>)
    requires
        i <= s@.len(),
    ensures
        match p_list(s@, i as int) {
            None => r is None,
            Some(sp) => r matches Some(ex) && ex.0@.map_values(|t: String| t@) == sp.0 && ex.1
                as int == sp.1 && ex.1 <= s@.len(),
        },
{
    let n = s.unicode_len();
    if i >= n || s.get_char(i) != '[' {
        return None;
    }
    if i + 1 < n && s.get_char(i + 1) == ']' {
        let v: Vec<String> = Vec::new();
        proof {
            assert(v@.map_values(|t: String| t@) =~= Seq::<Seq<char>>::empty());
        }
        return Some((v, i + 2));
    }
    e_list_rest(s, i + 1)
}

fn e_token(s: &str, i: usize) -> (r: Option<(Option<String>, usize)>)
    requires
        i <= s@.len(),
    ensures
        match p_token(s@, i as int) {
            None => r is None,
            Some(sp) => r matches Some(ex) && ex.1 as int == sp.1 && ex.1 <= s@.len() && (match ex
                .0 {
                Some(t) => sp.0 matches Some(tv) && t@ == tv,
                None => sp.0 is None,
            }),
        },
{
    match e_lit(s, i, "null") {
        Some(j) => Some((None, j)),
        None => match e_quoted(s, i) {
            Some((t, j)) => Some((Some(t), j)),
            None => None,
        },
    }
}

/// Reads a configuration back from its canonical persisted JSON form;
/// `None` for any other text.
pub fn decode_config(s: &str) -> (r: Option<BotConfig>)
    ensures
        match spec_decode(s@) {
            None => r is None,
            Some(m) => r matches Some(c) && model_of(c) == m && c.wf(),
        },
{
    let n = s.unicode_len();
    let i1 = match e_lit(s, 0, "{\"members\":") {
        Some(j) => j,
        None => {
            return None;
        },
    };
    let (members, i1b) = match e_list(s, i1) {
        Some(x) => x,
        None => {
            return None;
        },
    };
    let i2 = match e_lit(s, i1b, ",\"selected\":") {
        Some(j) => j,
        None => {
            return None;
        },
    };
    let (selected, i2b) = match e_list(s, i2) {
        Some(x) => x,
        None => {
            return None;
        },
    };
    let i3 = match e_lit(s, i2b, ",\"channel\":") {
        Some(j) => j,
        None => {
            return None;
        },
    };
    let (channel, i3b) = match e_quoted(s, i3) {
        Some(x) => x,
        None => {
            return None;
        },
    };
    let i4 = match e_lit(s, i3b, ",\"target_time\":\"") {
        Some(j) => j,
        None => {
            return None;
        },
    };
    let (target_time, i4b) = match e_time(s, i4) {
        Some(x) => x,
        None => {
            return None;
        },
    };
    let i5 = match e_lit(s, i4b, "\",\"advance_days\":") {
        Some(j) => j,
        None => {
            return None;
        },
    };
    let (adv, i5b) = match e_number(s, i5) {
        Some(x) => x,
        None => {
            return None;
        },
    };
    let i6 = match e_lit(s, i5b, ",\"post_time\":\"") {
        Some(j) => j,
        None => {
            return None;
        },
    };
    let (post_time, i6b) = match e_time(s, i6) {
        Some(x) => x,
        None => {
            return None;
        },
    };
    let i7 = match e_lit(s, i6b, "\",\"instant_delay\":") {
        Some(j) => j,
        None => {
            return None;
        },
    };
    let (delay, i7b) = match e_number(s, i7) {
        Some(x) => x,
        None => {
            return None;
        },
    };
    let i8 = match e_lit(s, i7b, ",\"token\":") {
        Some(j) => j,
        None => {
            return None;
        },
    };
    let (token, i8b) = match e_token(s, i8) {
        Some(x) => x,
        None => {
            return None;
        },
    };
    let i9 = match e_lit(s, i8b, ",\"id\":") {
        Some(j) => j,
        None => {
            return None;
        },
    };
    let (id, i9b) = match e_quoted(s, i9) {
        Some(x) => x,
        None => {
            return None;
        },
    };
    let end = match e_lit(s, i9b, "}") {
        Some(j) => j,
        None => {
            return None;
        },
    };
    if end != n {
        return None;
    }
    if adv > calendar::DAY_INDEX_CEIL as u64 {
        return None;
    }
    if delay > 1_000_000_000 {
        return None;
    }
    let c = BotConfig {
        members,
        selected,
        channel,
        target_time,
        advance_days: adv as i64,
        post_time,
        instant_delay: delay as i64,
        token,
        id,
    };
    proof {
        let sv = s@;
        let m = spec_decode(sv)->Some_0;
        // no control characters in any parsed string
        assert(text_ok(c.channel@)) by {
            lemma_p_str_body_text_ok(sv, i3 as int + 1);
        }
        assert(text_ok(c.id@)) by {
            lemma_p_str_body_text_ok(sv, i9 as int + 1);
        }
        assert(c.token matches Some(t) ==> text_ok(t@)) by {
            if c.token is Some {
                lemma_p_str_body_text_ok(sv, i8 as int + 1);
            }
        }
        assert(texts_ok(c.members@)) by {
            if p_list(sv, i1 as int)->Some_0.0.len() > 0 {
                lemma_p_list_rest_text_ok(sv, i1 as int + 1);
            }
            assert(c.members@.map_values(|t: String| t@) == p_list(sv, i1 as int)->Some_0.0);
            assert forall|k: int| 0 <= k < c.members@.len() implies text_ok(
                #[trigger] c.members@[k]@,
            ) by {
                assert(c.members@[k]@ == c.members@.map_values(|t: String| t@)[k]);
            }
        }
        assert(texts_ok(c.selected@)) by {
            if p_list(sv, i2 as int)->Some_0.0.len() > 0 {
                lemma_p_list_rest_text_ok(sv, i2 as int + 1);
            }
            assert(c.selected@.map_values(|t: String| t@) == p_list(sv, i2 as int)->Some_0.0);
            assert forall|k: int| 0 <= k < c.selected@.len() implies text_ok(
                #[trigger] c.selected@[k]@,
            ) by {
                assert(c.selected@[k]@ == c.selected@.map_values(|t: String| t@)[k]);
            }
        }
        assert(c.wf());
        assert(model_of(c) == m);
    }
    Some(c)
}

// ---------------------------------------------------------------------------
// The round-trip law: decoding a canonical encoding recovers the model.
// ---------------------------------------------------------------------------

/// A literal at the head of the remaining text parses and leaves the rest.
proof fn lemma_p_lit_suffix(s: Seq<char>, i: int, lit: Seq<char>, rest: Seq<char>)
    requires
        0 <= i <= s.len(),
        s.subrange(i, s.len() as int) == lit + rest,
    ensures
        p_lit(s, i, lit) == Some(i + lit.len()),
        s.subrange(i + lit.len(), s.len() as int) == rest,
        i + lit.len() <= s.len(),
{
    assert(s.subrange(i, s.len() as int).len() == lit.len() + rest.len());
    assert(s.len() - i == lit.len() + rest.len());
    assert(s.subrange(i, i + lit.len()) =~= lit) by {
        assert(forall|q: int|
            0 <= q < lit.len() ==> s.subrange(i, s.len() as int)[q] == #[trigger] lit[q]);
        assert(forall|q: int|
            0 <= q < lit.len() ==> s.subrange(i, i + lit.len())[q] == s.subrange(
                i,
                s.len() as int,
            )[q]);
    }
    assert(s.subrange(i + lit.len(), s.len() as int) =~= rest) by {
        assert(forall|q: int|
            0 <= q < rest.len() ==> s.subrange(i, s.len() as int)[lit.len() + q]
                == #[trigger] rest[q]);
        assert(forall|q: int|
            0 <= q < rest.len() ==> #[trigger] s.subrange(i + lit.len(), s.len() as int)[q] == s[i
                + lit.len() + q]);
        assert(forall|q: int|
            0 <= q < rest.len() ==> s[i + lit.len() + q] == #[trigger] s.subrange(
                i,
                s.len() as int,
            )[lit.len() + q]);
    }
}

/// An escaped text at the head of the remaining text, followed by a quote,
/// parses back to the text.
proof fn lemma_p_str_body_suffix(s: Seq<char>, i: int, t: Seq<char>, rest: Seq<char>)
    requires
        0 <= i <= s.len(),
        text_ok(t),
        s.subrange(i, s.len() as int) == esc_str(t) + seq!['"'] + rest,
    ensures
        p_str_body(s, i) == Some((t, i + esc_str(t).len())),
        i + esc_str(t).len() < s.len(),
        s[i + esc_str(t).len()] == '"',
        s.subrange(i + esc_str(t).len() + 1, s.len() as int) == rest,
    decreases t.len(),
{
    let suf = s.subrange(i, s.len() as int);
    assert(suf.len() == esc_str(t).len() + 1 + rest.len());
    assert(s.len() - i == esc_str(t).len() + 1 + rest.len());
    assert(forall|q: int| 0 <= q < suf.len() ==> s[i + q] == #[trigger] suf[q]);
    if t.len() == 0 {
        assert(esc_str(t) =~= Seq::<char>::empty());
        assert(s[i] == suf[0]);
        assert(suf[0] == '"');
        assert(s.subrange(i + 1, s.len() as int) =~= rest) by {
            assert(forall|q: int|
                0 <= q < rest.len() ==> #[trigger] s.subrange(i + 1, s.len() as int)[q] == s[i + 1
                    + q]);
            assert(forall|q: int| 0 <= q < rest.len() ==> s[i + 1 + q] == #[trigger] suf[1 + q]);
            assert(forall|q: int| 0 <= q < rest.len() ==> suf[1 + q] == #[trigger] rest[q]);
        }
    } else {
        let c = t.first();
        assert(text_ok(t.drop_first())) by {
            assert(forall|q: int|
                0 <= q < t.drop_first().len() ==> #[trigger] t.drop_first()[q] == t[q + 1]);
        }
        assert(esc_str(t) == esc_char(c) + esc_str(t.drop_first()));
        if c == '"' || c == '\\' {
            assert(esc_char(c) == seq!['\\', c]);
            assert(s[i] == suf[0]);
            assert(suf[0] == '\\');
            assert(s[i + 1] == suf[1]);
            assert(suf[1] == c);
            assert(s.subrange(i + 2, s.len() as int) =~= esc_str(t.drop_first()) + seq!['"']
                + rest) by {
                let tail = esc_str(t.drop_first()) + seq!['"'] + rest;
                assert(forall|q: int|
                    0 <= q < tail.len() ==> #[trigger] s.subrange(i + 2, s.len() as int)[q] == s[i
                        + 2 + q]);
                assert(forall|q: int| 0 <= q < tail.len() ==> s[i + 2 + q] == #[trigger] suf[2 + q]);
                assert(forall|q: int| 0 <= q < tail.len() ==> suf[2 + q] == #[trigger] tail[q]);
            }
            lemma_p_str_body_suffix(s, i + 2, t.drop_first(), rest);
            assert(seq![s[i + 1]] + t.drop_first() =~= t);
        } else {
            assert(esc_char(c) == seq![c]);
            assert(s[i] == suf[0]);
            assert(suf[0] == c);
            assert((c as u32) >= 32);
            assert(s.subrange(i + 1, s.len() as int) =~= esc_str(t.drop_first()) + seq!['"']
                + rest) by {
                let tail = esc_str(t.drop_first()) + seq!['"'] + rest;
                assert(forall|q: int|
                    0 <= q < tail.len() ==> #[trigger] s.subrange(i + 1, s.len() as int)[q] == s[i
                        + 1 + q]);
                assert(forall|q: int| 0 <= q < tail.len() ==> s[i + 1 + q] == #[trigger] suf[1 + q]);
                assert(forall|q: int| 0 <= q < tail.len() ==> suf[1 + q] == #[trigger] tail[q]);
            }
            lemma_p_str_body_suffix(s, i + 1, t.drop_first(), rest);
            assert(seq![c] + t.drop_first() =~= t);
        }
    }
}

/// A quoted string at the head of the remaining text parses back to the
/// text.
proof fn lemma_p_quoted_suffix(s: Seq<char>, i: int, t: Seq<char>, rest: Seq<char>)
    requires
        0 <= i <= s.len(),
        text_ok(t),
        s.subrange(i, s.len() as int) == quoted(t) + rest,
    ensures
        p_quoted(s, i) == Some((t, i + quoted(t).len())),
        i + quoted(t).len() <= s.len(),
        s.subrange(i + quoted(t).len(), s.len() as int) == rest,
        quoted(t).len() >= 2,
{
    assert(s.subrange(i, s.len() as int).len() == quoted(t).len() + rest.len());
    assert(s.len() - i == quoted(t).len() + rest.len());
    assert(forall|q: int|
        0 <= q < s.len() - i ==> s[i + q] == #[trigger] s.subrange(i, s.len() as int)[q]);
    assert(s.subrange(i, s.len() as int)[0] == quoted(t)[0]);
    assert(s[i] == '"');
    assert(s.subrange(i + 1, s.len() as int) =~= esc_str(t) + seq!['"'] + rest) by {
        let suf = s.subrange(i, s.len() as int);
        let tail = esc_str(t) + seq!['"'] + rest;
        assert(forall|q: int|
            0 <= q < tail.len() ==> #[trigger] s.subrange(i + 1, s.len() as int)[q] == s[i + 1
                + q]);
        assert(forall|q: int| 0 <= q < tail.len() ==> s[i + 1 + q] == #[trigger] suf[1 + q]);
        assert(forall|q: int| 0 <= q < tail.len() ==> suf[1 + q] == #[trigger] tail[q]);
    }
    lemma_p_str_body_suffix(s, i + 1, t, rest);
    assert(s.subrange(i + quoted(t).len(), s.len() as int) =~= s.subrange(
        i + 1 + esc_str(t).len() + 1,
        s.len() as int,
    ));
}

/// Splitting the remaining text at the head piece: the piece's characters
/// stand at `i`, and the rest begins right after it.
proof fn lemma_suffix_advance(s: Seq<char>, i: int, a: Seq<char>, b: Seq<char>)
    requires
        0 <= i <= s.len(),
        s.subrange(i, s.len() as int) == a + b,
    ensures
        i + a.len() <= s.len(),
        s.subrange(i + a.len(), s.len() as int) == b,
        forall|q: int| 0 <= q < a.len() ==> s[i + q] == #[trigger] a[q],
        forall|q: int| 0 <= q < b.len() ==> s[i + a.len() + q] == #[trigger] b[q],
{
    assert(s.subrange(i, s.len() as int).len() == a.len() + b.len());
    assert forall|q: int| 0 <= q < a.len() implies s[i + q] == #[trigger] a[q] by {
        assert(s[i + q] == s.subrange(i, s.len() as int)[q]);
        assert(s.subrange(i, s.len() as int)[q] == (a + b)[q]);
    }
    assert forall|q: int| 0 <= q < b.len() implies s[i + a.len() + q] == #[trigger] b[q] by {
        assert(s[i + a.len() + q] == s.subrange(i, s.len() as int)[a.len() + q]);
        assert(s.subrange(i, s.len() as int)[a.len() + q] == (a + b)[a.len() + q]);
    }
    assert(s.subrange(i + a.len(), s.len() as int) =~= b) by {
        assert(forall|q: int|
            0 <= q < b.len() ==> #[trigger] s.subrange(i + a.len(), s.len() as int)[q] == s[i
                + a.len() + q]);
    }
}

/// All characters of a decimal rendering are digits, and it reads back to
/// the number it renders.
proof fn lemma_dec_digits_facts(n: int)
    requires
        0 <= n,
    ensures
        dec_digits(n).len() >= 1,
        forall|k: int| 0 <= k < dec_digits(n).len() ==> is_digit(#[trigger] dec_digits(n)[k]),
        num_val(dec_digits(n)) == n,
    decreases n,
{
    if n < 10 {
        assert(dec_digits(n) == seq![spec_digit_char(n)]);
        assert(is_digit(spec_digit_char(n)));
        assert(digit_val(spec_digit_char(n)) == n);
        assert(dec_digits(n).drop_last() =~= Seq::<char>::empty());
        assert(num_val(Seq::<char>::empty()) == 0);
        assert(dec_digits(n).last() == spec_digit_char(n));
        assert(num_val(dec_digits(n)) == num_val(dec_digits(n).drop_last()) * 10 + digit_val(
            dec_digits(n).last(),
        ));
    } else {
        lemma_dec_digits_facts(n / 10);
        assert(is_digit(spec_digit_char(n % 10)));
        assert(digit_val(spec_digit_char(n % 10)) == n % 10);
        assert(dec_digits(n).drop_last() =~= dec_digits(n / 10));
        assert(dec_digits(n).last() == spec_digit_char(n % 10));
        assert(num_val(dec_digits(n)) == num_val(dec_digits(n).drop_last()) * 10 + digit_val(
            dec_digits(n).last(),
        ));
        vstd::arithmetic::div_mod::lemma_fundamental_div_mod(n, 10);
        assert forall|k: int| 0 <= k < dec_digits(n).len() implies is_digit(
            #[trigger] dec_digits(n)[k],
        ) by {
            if k < dec_digits(n).len() - 1 {
                assert(dec_digits(n)[k] == dec_digits(n / 10)[k]);
            } else {
                assert(dec_digits(n)[k] == spec_digit_char(n % 10));
            }
        }
    }
}

/// A number below the fifteenth power of ten renders in at most fifteen
/// digits.
proof fn lemma_dec_digits_len(n: int, k: nat)
    requires
        0 <= n < pow10(k),
        1 <= k,
    ensures
        dec_digits(n).len() <= k,
    decreases k,
{
    if n < 10 {
    } else {
        assert(pow10(k) == 10 * pow10((k - 1) as nat));
        assert(k >= 2) by {
            if k == 1 {
                assert(pow10(1) == 10) by {
                    reveal_with_fuel(pow10, 2);
                }
            }
        }
        assert(n / 10 < pow10((k - 1) as nat)) by {
            vstd::arithmetic::div_mod::lemma_fundamental_div_mod(n, 10);
            assert(10 * (n / 10) <= n);
            assert(10 * (n / 10) < 10 * pow10((k - 1) as nat));
            assert(n / 10 < pow10((k - 1) as nat)) by (nonlinear_arith)
                requires
                    10 * (n / 10) < 10 * pow10((k - 1) as nat),
            ;
        }
        lemma_dec_digits_len(n / 10, (k - 1) as nat);
    }
}

/// A run of digits ending at a non-digit is exactly what the digit scan
/// finds.
proof fn lemma_scan_run(s: Seq<char>, i: int, j: int)
    requires
        0 <= i <= j <= s.len(),
        forall|k: int| i <= k < j ==> is_digit(#[trigger] s[k]),
        j == s.len() || !is_digit(s[j]),
    ensures
        p_scan_digits(s, i) == j,
    decreases j - i,
{
    if i < j {
        lemma_scan_run(s, i + 1, j);
    }
}

/// A rendered number at the head of the remaining text parses back to it.
proof fn lemma_p_number_suffix(s: Seq<char>, i: int, n: int, rest: Seq<char>)
    requires
        0 <= i <= s.len(),
        0 <= n < pow10(15),
        rest.len() >= 1,
        !is_digit(rest.first()),
        s.subrange(i, s.len() as int) == dec_digits(n) + rest,
    ensures
        p_number(s, i) == Some((n, i + dec_digits(n).len())),
        s.subrange(i + dec_digits(n).len(), s.len() as int) == rest,
        i + dec_digits(n).len() <= s.len(),
{
    lemma_dec_digits_facts(n);
    lemma_dec_digits_len(n, 15);
    lemma_suffix_advance(s, i, dec_digits(n), rest);
    let j = i + dec_digits(n).len();
    assert(s[j] == rest[0]);
    assert forall|k: int| i <= k < j implies is_digit(#[trigger] s[k]) by {
        assert(s[k] == dec_digits(n)[k - i]);
    }
    lemma_scan_run(s, i, j);
    assert(s.subrange(i, j) =~= dec_digits(n)) by {
        assert(forall|q: int| 0 <= q < j - i ==> #[trigger] s.subrange(i, j)[q] == s[i + q]);
        assert(forall|q: int| 0 <= q < j - i ==> s[i + q] == #[trigger] dec_digits(n)[q]);
    }
}

/// A rendered time at the head of the remaining text parses back to it.
proof fn lemma_p_time_suffix(s: Seq<char>, i: int, t: TimeOfDay, rest: Seq<char>)
    requires
        0 <= i <= s.len(),
        t.wf(),
        s.subrange(i, s.len() as int) == time_chars(t) + rest,
    ensures
        p_time(s, i) == Some((t, i + 8)),
        s.subrange(i + 8, s.len() as int) == rest,
        i + 8 <= s.len(),
{
    lemma_suffix_advance(s, i, time_chars(t), rest);
    let sub = s.subrange(i, i + 8);
    assert(sub =~= time_chars(t)) by {
        assert(forall|q: int| 0 <= q < 8 ==> #[trigger] sub[q] == s[i + q]);
    }
    vstd::arithmetic::div_mod::lemma_fundamental_div_mod(t.hour as int, 10);
    vstd::arithmetic::div_mod::lemma_fundamental_div_mod(t.minute as int, 10);
    vstd::arithmetic::div_mod::lemma_fundamental_div_mod(t.second as int, 10);
    assert(crate::dates::time_str_ok(sub));
    assert(crate::dates::time_str_hour(sub) == t.hour as int);
    assert(crate::dates::time_str_minute(sub) == t.minute as int);
    assert(crate::dates::time_str_second(sub) == t.second as int);
}

/// A rendered nonempty string list body parses back to its members.
proof fn lemma_p_list_rest_suffix(s: Seq<char>, i: int, v: Seq<Seq<char>>, rest: Seq<char>)
    requires
        0 <= i <= s.len(),
        v.len() >= 1,
        forall|k: int| 0 <= k < v.len() ==> text_ok(#[trigger] v[k]),
        s.subrange(i, s.len() as int) == list_inner(v) + seq![']'] + rest,
    ensures
        p_list_rest(s, i) == Some((v, i + list_inner(v).len() + 1)),
        s.subrange(i + list_inner(v).len() + 1, s.len() as int) == rest,
        i + list_inner(v).len() + 1 <= s.len(),
    decreases v.len(),
{
    if v.len() == 1 {
        assert(list_inner(v) == quoted(v.first()));
        assert(s.subrange(i, s.len() as int) =~= quoted(v.first()) + (seq![']'] + rest));
        lemma_p_quoted_suffix(s, i, v.first(), seq![']'] + rest);
        let j = i + quoted(v.first()).len();
        lemma_suffix_advance(s, j, seq![']'], rest);
        assert(s[j] == seq![']'][0]);
        assert(s[j] == ']');
        assert(seq![v.first()] =~= v);
    } else {
        assert(list_inner(v) == quoted(v.first()) + seq![','] + list_inner(v.drop_first()));
        let tail2 = seq![','] + list_inner(v.drop_first()) + seq![']'] + rest;
        assert(s.subrange(i, s.len() as int) =~= quoted(v.first()) + tail2);
        lemma_p_quoted_suffix(s, i, v.first(), tail2);
        let j = i + quoted(v.first()).len();
        assert(tail2 =~= seq![','] + (list_inner(v.drop_first()) + seq![']'] + rest));
        assert(s.subrange(j, s.len() as int) == seq![','] + (list_inner(v.drop_first())
            + seq![']'] + rest));
        lemma_suffix_advance(s, j, seq![','], list_inner(v.drop_first()) + seq![']'] + rest);
        assert(s[j] == seq![','][0]);
        assert(s[j] == ',');
        assert(s.subrange(j + 1, s.len() as int) =~= list_inner(v.drop_first()) + seq![']']
            + rest);
        assert(forall|k: int|
            0 <= k < v.drop_first().len() ==> text_ok(#[trigger] v.drop_first()[k]));
        lemma_p_list_rest_suffix(s, j + 1, v.drop_first(), rest);
        assert(seq![v.first()] + v.drop_first() =~= v);
    }
}

/// A rendered string list parses back to its members.
proof fn lemma_p_list_suffix(s: Seq<char>, i: int, v: Seq<Seq<char>>, rest: Seq<char>)
    requires
        0 <= i <= s.len(),
        forall|k: int| 0 <= k < v.len() ==> text_ok(#[trigger] v[k]),
        s.subrange(i, s.len() as int) == list_chars(v) + rest,
    ensures
        p_list(s, i) == Some((v, i + list_chars(v).len())),
        s.subrange(i + list_chars(v).len(), s.len() as int) == rest,
        i + list_chars(v).len() <= s.len(),
{
    lemma_suffix_advance(s, i, list_chars(v), rest);
    assert(s[i] == list_chars(v)[0]);
    assert(s[i] == '[');
    if v.len() == 0 {
        assert(list_inner(v) =~= Seq::<char>::empty());
        assert(list_chars(v) =~= seq!['[', ']']);
        assert(s[i + 1] == ']');
        assert(s.subrange(i + 2, s.len() as int) =~= rest);
        assert(v =~= Seq::<Seq<char>>::empty());
    } else {
        assert(list_inner(v).len() >= 1) by {
            assert(quoted(v.first()).len() >= 2);
        }
        assert(list_chars(v) + rest =~= seq!['['] + (list_inner(v) + seq![']'] + rest));
        assert(s.subrange(i, s.len() as int) == seq!['['] + (list_inner(v) + seq![']'] + rest));
        lemma_suffix_advance(s, i, seq!['['], list_inner(v) + seq![']'] + rest);
        assert(s[i + 1] == (list_inner(v) + seq![']'] + rest)[0]);
        assert((list_inner(v) + seq![']'] + rest)[0] == quoted(v.first())[0]);
        assert(s[i + 1] == '"');
        lemma_p_list_rest_suffix(s, i + 1, v, rest);
    }
}

/// A rendered token parses back to it.
proof fn lemma_p_token_suffix(s: Seq<char>, i: int, t: Option<Seq<char>>, rest: Seq<char>)
    requires
        0 <= i <= s.len(),
        t matches Some(tv) ==> text_ok(tv),
        s.subrange(i, s.len() as int) == token_chars(t) + rest,
    ensures
        p_token(s, i) == Some((t, i + token_chars(t).len())),
        s.subrange(i + token_chars(t).len(), s.len() as int) == rest,
        i + token_chars(t).len() <= s.len(),
{
    reveal_strlit("null");
    match t {
        None => {
            lemma_p_lit_suffix(s, i, "null"@, rest);
            assert("null"@.len() == 4);
        },
        Some(tv) => {
            lemma_p_quoted_suffix(s, i, tv, rest);
            lemma_suffix_advance(s, i, quoted(tv), rest);
            assert(s[i] == quoted(tv)[0]);
            assert(s[i] == '"');
            assert(p_lit(s, i, "null"@) is None) by {
                if p_lit(s, i, "null"@) is Some {
                    assert(s.subrange(i, i + 4)[0] == s[i]);
                    assert("null"@[0] == 'n');
                }
            }
        },
    }
}

/// The canonical text, grouped so that each field's piece heads its own
/// remaining text.
#[verifier::rlimit(100)]
#[verifier::spinoff_prover]
proof fn lemma_model_chars_split(m: ConfigModel)
    ensures
        model_chars(m) == "{\"members\":"@ + (list_chars(m.members) + (",\"selected\":"@ + (
        list_chars(m.selected) + (",\"channel\":"@ + (quoted(m.channel) + (",\"target_time\":\""@
            + (time_chars(m.target_time) + ("\",\"advance_days\":"@ + (dec_digits(m.advance_days)
            + (",\"post_time\":\""@ + (time_chars(m.post_time) + ("\",\"instant_delay\":"@ + (
        dec_digits(m.instant_delay) + (",\"token\":"@ + (token_chars(m.token) + (",\"id\":"@ + (
        quoted(m.id) + "}"@))))))))))))))))),
{
    let s = model_chars(m);
    let s19 = "}"@;
    let s18 = quoted(m.id) + s19;
    let s17 = ",\"id\":"@ + s18;
    let s16 = token_chars(m.token) + s17;
    let s15 = ",\"token\":"@ + s16;
    let s14 = dec_digits(m.instant_delay) + s15;
    let s13 = "\",\"instant_delay\":"@ + s14;
    let s12 = time_chars(m.post_time) + s13;
    let s11 = ",\"post_time\":\""@ + s12;
    let s10 = dec_digits(m.advance_days) + s11;
    let s9 = "\",\"advance_days\":"@ + s10;
    let s8 = time_chars(m.target_time) + s9;
    let s7 = ",\"target_time\":\""@ + s8;
    let s6 = quoted(m.channel) + s7;
    let s5 = ",\"channel\":"@ + s6;
    let s4 = list_chars(m.selected) + s5;
    let s3 = ",\"selected\":"@ + s4;
    let s2 = list_chars(m.members) + s3;
    let p1 = "{\"members\":"@;
    let p2 = p1 + list_chars(m.members);
    let p3 = p2 + ",\"selected\":"@;
    let p4 = p3 + list_chars(m.selected);
    let p5 = p4 + ",\"channel\":"@;
    let p6 = p5 + quoted(m.channel);
    let p7 = p6 + ",\"target_time\":\""@;
    let p8 = p7 + time_chars(m.target_time);
    let p9 = p8 + "\",\"advance_days\":"@;
    let p10 = p9 + dec_digits(m.advance_days);
    let p11 = p10 + ",\"post_time\":\""@;
    let p12 = p11 + time_chars(m.post_time);
    let p13 = p12 + "\",\"instant_delay\":"@;
    let p14 = p13 + dec_digits(m.instant_delay);
    let p15 = p14 + ",\"token\":"@;
    let p16 = p15 + token_chars(m.token);
    let p17 = p16 + ",\"id\":"@;
    let p18 = p17 + quoted(m.id);
    assert(s == p18 + s19);
    vstd::seq_lib::lemma_concat_associative(p17, quoted(m.id), s19);
    assert(s == p17 + s18);
    vstd::seq_lib::lemma_concat_associative(p16, ",\"id\":"@, s18);
    assert(s == p16 + s17);
    vstd::seq_lib::lemma_concat_associative(p15, token_chars(m.token), s17);
    assert(s == p15 + s16);
    vstd::seq_lib::lemma_concat_associative(p14, ",\"token\":"@, s16);
    assert(s == p14 + s15);
    vstd::seq_lib::lemma_concat_associative(p13, dec_digits(m.instant_delay), s15);
    assert(s == p13 + s14);
    vstd::seq_lib::lemma_concat_associative(p12, "\",\"instant_delay\":"@, s14);
    assert(s == p12 + s13);
    vstd::seq_lib::lemma_concat_associative(p11, time_chars(m.post_time), s13);
    assert(s == p11 + s12);
    vstd::seq_lib::lemma_concat_associative(p10, ",\"post_time\":\""@, s12);
    assert(s == p10 + s11);
    vstd::seq_lib::lemma_concat_associative(p9, dec_digits(m.advance_days), s11);
    assert(s == p9 + s10);
    vstd::seq_lib::lemma_concat_associative(p8, "\",\"advance_days\":"@, s10);
    assert(s == p8 + s9);
    vstd::seq_lib::lemma_concat_associative(p7, time_chars(m.target_time), s9);
    assert(s == p7 + s8);
    vstd::seq_lib::lemma_concat_associative(p6, ",\"target_time\":\""@, s8);
    assert(s == p6 + s7);
    vstd::seq_lib::lemma_concat_associative(p5, quoted(m.channel), s7);
    assert(s == p5 + s6);
    vstd::seq_lib::lemma_concat_associative(p4, ",\"channel\":"@, s6);
    assert(s == p4 + s5);
    vstd::seq_lib::lemma_concat_associative(p3, list_chars(m.selected), s5);
    assert(s == p3 + s4);
    vstd::seq_lib::lemma_concat_associative(p2, ",\"selected\":"@, s4);
    assert(s == p2 + s3);
    vstd::seq_lib::lemma_concat_associative(p1, list_chars(m.members), s3);
    assert(s == p1 + s2);
}

/// Round trip of the tail of the persisted form, from the instant-delay
/// field on.
#[verifier::rlimit(100)]
#[verifier::spinoff_prover]
proof fn lemma_tail_round_trip(s: Seq<char>, m: ConfigModel, i: int)
    requires
        0 <= i <= s.len(),
        text_ok(m.id),
        m.token matches Some(tv) ==> text_ok(tv),
        0 <= m.advance_days <= calendar::DAY_INDEX_CEIL as int,
        0 <= m.instant_delay <= 1_000_000_000,
        s.subrange(i, s.len() as int) == "\",\"instant_delay\":"@ + (dec_digits(m.instant_delay)
            + (",\"token\":"@ + (token_chars(m.token) + (",\"id\":"@ + (quoted(m.id) + "}"@))))),
    ensures
        spec_decode_tail(
            s,
            m.members,
            m.selected,
            m.channel,
            m.target_time,
            m.advance_days,
            m.post_time,
            i,
        ) == Some(m),
{
    let s19 = "}"@;
    let s18 = quoted(m.id) + s19;
    let s17 = ",\"id\":"@ + s18;
    let s16 = token_chars(m.token) + s17;
    let s15 = ",\"token\":"@ + s16;
    let s14 = dec_digits(m.instant_delay) + s15;
    lemma_p_lit_suffix(s, i, "\",\"instant_delay\":"@, s14);
    let i7 = i + "\",\"instant_delay\":"@.len() as int;
    assert(pow10(15) == 1_000_000_000_000_000) by {
        reveal_with_fuel(pow10, 16);
    }
    reveal_strlit(",\"token\":");
    assert(s15.first() == ',') by {
        assert(s15[0] == ",\"token\":"@[0]);
    }
    assert(!is_digit(s15.first()));
    lemma_p_number_suffix(s, i7, m.instant_delay, s15);
    let i7b = i7 + dec_digits(m.instant_delay).len() as int;
    lemma_p_lit_suffix(s, i7b, ",\"token\":"@, s16);
    let i8 = i7b + ",\"token\":"@.len() as int;
    lemma_p_token_suffix(s, i8, m.token, s17);
    let i8b = i8 + token_chars(m.token).len() as int;
    lemma_p_lit_suffix(s, i8b, ",\"id\":"@, s18);
    let i9 = i8b + ",\"id\":"@.len() as int;
    lemma_p_quoted_suffix(s, i9, m.id, s19);
    let i9b = i9 + quoted(m.id).len() as int;
    assert(s19 =~= "}"@ + Seq::<char>::empty());
    assert(s.subrange(i9b, s.len() as int) == "}"@ + Seq::<char>::empty());
    lemma_p_lit_suffix(s, i9b, "}"@, Seq::<char>::empty());
    let iend = i9b + "}"@.len() as int;
    assert(s.subrange(iend, s.len() as int).len() == 0);
    assert(iend == s.len());
}

/// Round trip of the middle of the persisted form: channel, times and
/// advance days.
#[verifier::rlimit(100)]
#[verifier::spinoff_prover]
proof fn lemma_mid_round_trip(s: Seq<char>, m: ConfigModel, i: int)
    requires
        0 <= i <= s.len(),
        text_ok(m.channel),
        text_ok(m.id),
        m.token matches Some(tv) ==> text_ok(tv),
        m.target_time.wf(),
        m.post_time.wf(),
        0 <= m.advance_days <= calendar::DAY_INDEX_CEIL as int,
        0 <= m.instant_delay <= 1_000_000_000,
        s.subrange(i, s.len() as int) == ",\"channel\":"@ + (quoted(m.channel) + (
        ",\"target_time\":\""@ + (time_chars(m.target_time) + ("\",\"advance_days\":"@ + (
        dec_digits(m.advance_days) + (",\"post_time\":\""@ + (time_chars(m.post_time) + (
        "\",\"instant_delay\":"@ + (dec_digits(m.instant_delay) + (",\"token\":"@ + (token_chars(
            m.token,
        ) + (",\"id\":"@ + (quoted(m.id) + "}"@))))))))))))),
    ensures
        spec_decode_mid(s, m.members, m.selected, i) == Some(m),
{
    let s13 = "\",\"instant_delay\":"@ + (dec_digits(m.instant_delay) + (",\"token\":"@ + (
    token_chars(m.token) + (",\"id\":"@ + (quoted(m.id) + "}"@)))));
    let s12 = time_chars(m.post_time) + s13;
    let s11 = ",\"post_time\":\""@ + s12;
    let s10 = dec_digits(m.advance_days) + s11;
    let s9 = "\",\"advance_days\":"@ + s10;
    let s8 = time_chars(m.target_time) + s9;
    let s7 = ",\"target_time\":\""@ + s8;
    let s6 = quoted(m.channel) + s7;
    lemma_p_lit_suffix(s, i, ",\"channel\":"@, s6);
    let i3 = i + ",\"channel\":"@.len() as int;
    lemma_p_quoted_suffix(s, i3, m.channel, s7);
    let i3b = i3 + quoted(m.channel).len() as int;
    lemma_p_lit_suffix(s, i3b, ",\"target_time\":\""@, s8);
    let i4 = i3b + ",\"target_time\":\""@.len() as int;
    lemma_p_time_suffix(s, i4, m.target_time, s9);
    let i4b = i4 + 8;
    lemma_p_lit_suffix(s, i4b, "\",\"advance_days\":"@, s10);
    let i5 = i4b + "\",\"advance_days\":"@.len() as int;
    assert(pow10(15) == 1_000_000_000_000_000) by {
        reveal_with_fuel(pow10, 16);
    }
    reveal_strlit(",\"post_time\":\"");
    assert(s11.first() == ',') by {
        assert(s11[0] == ",\"post_time\":\""@[0]);
    }
    assert(!is_digit(s11.first()));
    lemma_p_number_suffix(s, i5, m.advance_days, s11);
    let i5b = i5 + dec_digits(m.advance_days).len() as int;
    lemma_p_lit_suffix(s, i5b, ",\"post_time\":\""@, s12);
    let i6 = i5b + ",\"post_time\":\""@.len() as int;
    lemma_p_time_suffix(s, i6, m.post_time, s13);
    let i6b = i6 + 8;
    lemma_tail_round_trip(s, m, i6b);
}

/// Round trip of the persisted form: decoding the canonical encoding of a
/// well-formed configuration yields exactly its model — every field reads
/// back as it was written.
#[verifier::rlimit(100)]
#[verifier::spinoff_prover]
pub proof fn lemma_config_round_trip(c: BotConfig)
    requires
        c.wf(),
    ensures
        spec_decode(config_chars(c)) == Some(model_of(c)),
{
    let m = model_of(c);
    let s = config_chars(c);
    assert forall|k: int| 0 <= k < m.members.len() implies text_ok(#[trigger] m.members[k]) by {
        assert(m.members[k] == c.members@[k]@);
    }
    assert forall|k: int| 0 <= k < m.selected.len() implies text_ok(#[trigger] m.selected[k]) by {
        assert(m.selected[k] == c.selected@[k]@);
    }
    assert(text_ok(m.channel));
    assert(text_ok(m.id));
    assert(m.token matches Some(tv) ==> text_ok(tv));
    lemma_model_chars_split(m);
    let s5 = ",\"channel\":"@ + (quoted(m.channel) + (",\"target_time\":\""@ + (time_chars(
        m.target_time,
    ) + ("\",\"advance_days\":"@ + (dec_digits(m.advance_days) + (",\"post_time\":\""@ + (
    time_chars(m.post_time) + ("\",\"instant_delay\":"@ + (dec_digits(m.instant_delay) + (
    ",\"token\":"@ + (token_chars(m.token) + (",\"id\":"@ + (quoted(m.id) + "}"@)))))))))))));
    let s4 = list_chars(m.selected) + s5;
    let s3 = ",\"selected\":"@ + s4;
    let s2 = list_chars(m.members) + s3;
    assert(s == "{\"members\":"@ + s2);
    assert(s.subrange(0, s.len() as int) =~= s);
    lemma_p_lit_suffix(s, 0, "{\"members\":"@, s2);
    let i1 = 0 + "{\"members\":"@.len() as int;
    lemma_p_list_suffix(s, i1, m.members, s3);
    let i1b = i1 + list_chars(m.members).len() as int;
    lemma_p_lit_suffix(s, i1b, ",\"selected\":"@, s4);
    let i2 = i1b + ",\"selected\":"@.len() as int;
    lemma_p_list_suffix(s, i2, m.selected, s5);
    let i2b = i2 + list_chars(m.selected).len() as int;
    lemma_mid_round_trip(s, m, i2b);
    assert(spec_decode(s) == Some(
        ConfigModel {
            members: m.members,
            selected: m.selected,
            channel: m.channel,
            target_time: m.target_time,
            advance_days: m.advance_days,
            post_time: m.post_time,
            instant_delay: m.instant_delay,
            token: m.token,
            id: m.id,
        },
    ));
    assert(ConfigModel {
        members: m.members,
        selected: m.selected,
        channel: m.channel,
        target_time: m.target_time,
        advance_days: m.advance_days,
        post_time: m.post_time,
        instant_delay: m.instant_delay,
        token: m.token,
        id: m.id,
    } == m);
}

} // verus!
