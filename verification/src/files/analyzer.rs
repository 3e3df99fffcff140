//! The G-code metadata scan: layer markers, the estimated print time and
//! the heights that move commands reach.
use vstd::prelude::*;

use crate::text::{
    all_digits, char_is_whitespace, chars_of, contains, contains_seq, digits_value, is_prefix_of,
    is_whitespace, parse_digits, push_char, starts_with, string_from_range,
};

verus! {

/// The whitespace-separated words of `s` (std's `str::split_whitespace`):
/// a non-whitespace character after whitespace, or at the start, begins a
/// new word; one after a non-whitespace character extends the last word.
pub open spec fn words_spec(s: Seq<char>) -> Seq<Seq<char>>
    decreases s.len(),
{
    if s.len() == 0 {
        seq![]
    } else {
        let prev = words_spec(s.drop_last());
        let c = s.last();
        if char_is_whitespace(c) {
            prev
        } else if s.len() == 1 || char_is_whitespace(s[s.len() - 2]) {
            prev.push(seq![c])
        } else {
            prev.update(prev.len() - 1, prev.last().push(c))
        }
    }
}

/// The first word that begins with `Z`.
pub open spec fn first_z_word(words: Seq<Seq<char>>) -> Option<Seq<char>>
    decreases words.len(),
{
    if words.len() == 0 {
        None
    } else if words[0].len() > 0 && words[0][0] == 'Z' {
        Some(words[0])
    } else {
        first_z_word(words.drop_first())
    }
}

/// A layer marker line.
pub open spec fn is_layer_marker(line: Seq<char>) -> bool {
    is_prefix_of(";LAYER:"@, line)
}

/// The number of layer marker lines.
pub open spec fn count_layer_markers(lines: Seq<Seq<char>>) -> nat
    decreases lines.len(),
{
    if lines.len() == 0 {
        0
    } else {
        count_layer_markers(lines.drop_last()) + if is_layer_marker(lines.last()) {
            1nat
        } else {
            0nat
        }
    }
}

/// The height text of a line: on a `G1 ` move that mentions ` Z`, what
/// follows the `Z` of its first word that begins with `Z`.
pub open spec fn z_text_spec(line: Seq<char>) -> Option<Seq<char>> {
    if is_prefix_of("G1 "@, line) && contains_seq(line, " Z"@) {
        match first_z_word(words_spec(line)) {
            Some(w) => Some(w.skip(1)),
            None => None,
        }
    } else {
        None
    }
}

/// The height texts of all lines that have one, in order.
pub open spec fn z_texts_spec(lines: Seq<Seq<char>>) -> Seq<Seq<char>>
    decreases lines.len(),
{
    if lines.len() == 0 {
        seq![]
    } else {
        let prev = z_texts_spec(lines.drop_last());
        match z_text_spec(lines.last()) {
            Some(z) => prev.push(z),
            None => prev,
        }
    }
}

/// The comment with which PrusaSlicer states its print time estimate.
pub const PRUSA_TIME_PREFIX: &'static str = "; estimated printing time (normal mode) =";

/// The comment with which Cura states its print time estimate.
pub const CURA_TIME_PREFIX: &'static str = ";TIME:";

/// Seconds in one unit of an `h`/`m`/`s` duration (`d` for days).
pub open spec fn unit_seconds(c: char) -> Option<nat> {
    if c == 'd' {
        Some(86400)
    } else if c == 'h' {
        Some(3600)
    } else if c == 'm' {
        Some(60)
    } else if c == 's' {
        Some(1)
    } else {
        None
    }
}

/// One part of a duration such as `2h` or `45s`: decimal digits and a unit.
pub open spec fn token_seconds(w: Seq<char>) -> Option<nat> {
    if w.len() >= 2 && all_digits(w.drop_last()) {
        match unit_seconds(w.last()) {
            Some(u) => Some(digits_value(w.drop_last()) * u),
            None => None,
        }
    } else {
        None
    }
}

/// The total of the parts of a duration, where every part is well formed.
pub open spec fn tokens_seconds(ws: Seq<Seq<char>>) -> Option<nat>
    decreases ws.len(),
{
    if ws.len() == 0 {
        Some(0)
    } else {
        match (tokens_seconds(ws.drop_last()), token_seconds(ws.last())) {
            (Some(a), Some(b)) => Some(a + b),
            _ => None,
        }
    }
}

/// A duration written either as a number of seconds (`3723`) or as
/// whitespace-separated parts (`1h 2m 3s`), in seconds.
pub open spec fn duration_seconds(text: Seq<char>) -> Option<nat> {
    let ws = words_spec(text);
    if ws.len() == 0 {
        None
    } else if ws.len() == 1 && all_digits(ws[0]) {
        Some(digits_value(ws[0]))
    } else {
        tokens_seconds(ws)
    }
}

/// What follows a slicer's print time comment on a line, where the line is
/// one.
pub open spec fn time_comment_body(line: Seq<char>) -> Option<Seq<char>> {
    if is_prefix_of(PRUSA_TIME_PREFIX@, line) {
        Some(line.skip(PRUSA_TIME_PREFIX@.len() as int))
    } else if is_prefix_of(CURA_TIME_PREFIX@, line) {
        Some(line.skip(CURA_TIME_PREFIX@.len() as int))
    } else {
        None
    }
}

/// The print time that a line states, in seconds: a slicer's time comment
/// whose duration reads and fits in a `u64`.
pub open spec fn line_print_time(line: Seq<char>) -> Option<nat> {
    match time_comment_body(line) {
        Some(body) => match duration_seconds(body) {
            Some(t) => if t <= u64::MAX {
                Some(t)
            } else {
                None
            },
            None => None,
        },
        None => None,
    }
}

/// The print time stated by the last line that states one.
pub open spec fn print_time_spec(lines: Seq<Seq<char>>) -> Option<nat>
    decreases lines.len(),
{
    if lines.len() == 0 {
        None
    } else {
        match line_print_time(lines.last()) {
            Some(t) => Some(t),
            None => print_time_spec(lines.drop_last()),
        }
    }
}

/// The estimate of a scan: the slicer's stated print time where the file
/// has one, else one second per 50 lines.
pub open spec fn estimated_time_spec(lines: Seq<Seq<char>>) -> nat {
    match print_time_spec(lines) {
        Some(t) => t,
        None => lines.len() / 50,
    }
}

/// What a scan of the lines of a G-code file finds. The maximum height is
/// the largest of `z_texts` that reads as a number (0 where none does).
pub struct GcodeScan {
    pub layer_count: usize,
    pub estimated_time: u64,
    pub z_texts: Vec<String>,
}

proof fn lemma_words_end_in_word(s: Seq<char>)
    requires
        s.len() > 0,
        !char_is_whitespace(s.last()),
    ensures
        words_spec(s).len() > 0,
    decreases s.len(),
{
    if s.len() > 1 && !char_is_whitespace(s[s.len() - 2]) {
        assert(s.drop_last().last() == s[s.len() - 2]);
        lemma_words_end_in_word(s.drop_last());
    }
}

proof fn lemma_words_nonempty(s: Seq<char>)
    ensures
        forall|i: int| 0 <= i < words_spec(s).len() ==> #[trigger] words_spec(s)[i].len() > 0,
    decreases s.len(),
{
    if s.len() > 0 {
        let prev = words_spec(s.drop_last());
        lemma_words_nonempty(s.drop_last());
        let c = s.last();
        assert forall|i: int| 0 <= i < words_spec(s).len() implies #[trigger] words_spec(s)[i].len()
            > 0 by {
            if char_is_whitespace(c) {
                assert(prev[i].len() > 0);
            } else if s.len() == 1 || char_is_whitespace(s[s.len() - 2]) {
                if i < prev.len() {
                    assert(prev[i].len() > 0);
                }
            } else {
                assert(s.drop_last().last() == s[s.len() - 2]);
                lemma_words_end_in_word(s.drop_last());
                if i != prev.len() - 1 {
                    assert(prev[i].len() > 0);
                }
            }
        }
    }
}

proof fn lemma_count_bound(lines: Seq<Seq<char>>)
    ensures
        count_layer_markers(lines) <= lines.len(),
    decreases lines.len(),
{
    if lines.len() > 0 {
        lemma_count_bound(lines.drop_last());
    }
}

/// The whitespace-separated words of `s`.
pub fn split_whitespace(s: &str) -> (r: Vec<String>)
    ensures
        r.deep_view() == words_spec(s@),
{
    let v = chars_of(s);
    let mut words: Vec<String> = Vec::new();
    let mut cur = String::new();
    let mut in_word = false;
    let mut i: usize = 0;
    assert(v@.take(0) =~= Seq::<char>::empty());
    while i < v.len()
        invariant
            i <= v@.len(),
            v@ == s@,
            in_word ==> i > 0 && !char_is_whitespace(v@[i - 1]) && words.deep_view().push(cur@)
                == words_spec(v@.take(i as int)),
            !in_word ==> (i == 0 || char_is_whitespace(v@[i - 1])) && words.deep_view()
                == words_spec(v@.take(i as int)),
        decreases v@.len() - i,
    {
        let c = v[i];
        let ghost before = v@.take(i as int);
        let ghost after = v@.take(i + 1);
        assert(after.drop_last() =~= before);
        assert(after.last() == c);
        assert(i > 0 ==> after[after.len() - 2] == v@[i - 1]);
        if is_whitespace(c) {
            if in_word {
                let done = cur;
                cur = String::new();
                let ghost old_words = words.deep_view();
                words.push(done);
                assert(words.deep_view() =~= old_words.push(done@));
                in_word = false;
            }
        } else {
            if in_word {
                let ghost old_cur = cur@;
                push_char(&mut cur, c);
                assert(words.deep_view().push(cur@) =~= words.deep_view().push(old_cur).update(
                    words.deep_view().len() as int,
                    old_cur.push(c),
                ));
            } else {
                cur = String::new();
                push_char(&mut cur, c);
                assert(cur@ =~= seq![c]);
                in_word = true;
            }
        }
        i += 1;
    }
    assert(v@.take(v@.len() as int) =~= v@);
    if in_word {
        let ghost old_words = words.deep_view();
        words.push(cur);
        assert(words.deep_view() =~= old_words.push(cur@));
    }
    words
}

/// The height text of a line, where it has one.
pub fn z_text(line: &str) -> (r: Option<String>)
    ensures
        r.deep_view() == z_text_spec(line@),
{
    if !(starts_with(line, "G1 ") && contains(line, " Z")) {
        return None;
    }
    let words = split_whitespace(line);
    proof {
        lemma_words_nonempty(line@);
    }
    let ghost ws = words.deep_view();
    assert(ws.skip(0) =~= ws);
    let mut k: usize = 0;
    while k < words.len()
        invariant
            k <= words@.len(),
            ws == words.deep_view(),
            ws == words_spec(line@),
            is_prefix_of("G1 "@, line@) && contains_seq(line@, " Z"@),
            forall|i: int| 0 <= i < ws.len() ==> #[trigger] ws[i].len() > 0,
            first_z_word(ws) == first_z_word(ws.skip(k as int)),
        decreases words@.len() - k,
    {
        let w = chars_of(words[k].as_str());
        assert(ws[k as int] == w@);
        assert(ws.skip(k as int)[0] == ws[k as int]);
        assert(ws.skip(k as int).drop_first() =~= ws.skip(k + 1));
        if w[0] == 'Z' {
            assert(first_z_word(ws.skip(k as int)) == Some(ws[k as int]));
            let z = string_from_range(&w, 1, w.len());
            assert(z@ =~= w@.skip(1));
            return Some(z);
        }
        k += 1;
    }
    assert(ws.skip(k as int).len() == 0);
    None
}

/// Where the parts of a duration add up, so does every leading run of them,
/// to no more.
proof fn lemma_tokens_prefix(ws: Seq<Seq<char>>, k: int)
    requires
        0 <= k <= ws.len(),
        tokens_seconds(ws) is Some,
    ensures
        tokens_seconds(ws.take(k)) is Some,
        tokens_seconds(ws.take(k))->0 <= tokens_seconds(ws)->0,
    decreases ws.len() - k,
{
    if k == ws.len() {
        assert(ws.take(k) =~= ws);
    } else {
        lemma_tokens_prefix(ws, k + 1);
        assert(ws.take(k + 1).drop_last() =~= ws.take(k));
    }
}

/// The seconds that one part of a duration (`2h`, `45s`) stands for; `None`
/// where the part is malformed or its value does not fit in a `u64`.
fn token_value(w: &Vec<char>) -> (r: Option<u64>)
    ensures
        r matches Some(n) ==> token_seconds(w@) == Some(n as nat),
        r is None ==> (token_seconds(w@) matches Some(t) ==> t > u64::MAX),
{
    if w.len() < 2 {
        return None;
    }
    let last = w[w.len() - 1];
    let unit: u64 = if last == 'd' {
        86400
    } else if last == 'h' {
        3600
    } else if last == 'm' {
        60
    } else if last == 's' {
        1
    } else {
        return None;
    };
    assert(w@.subrange(0, w@.len() - 1) =~= w@.drop_last());
    match parse_digits(w, 0, w.len() - 1, u64::MAX) {
        Some(n) => {
            let r = n.checked_mul(unit);
            r
        },
        None => {
            assert(token_seconds(w@) matches Some(t) ==> t > u64::MAX) by {
                if all_digits(w@.drop_last()) {
                    assert(digits_value(w@.drop_last()) > u64::MAX);
                    assert(digits_value(w@.drop_last()) * unit >= digits_value(w@.drop_last()))
                        by (nonlinear_arith)
                        requires
                            unit >= 1,
                    ;
                }
            }
            None
        },
    }
}

/// The total seconds of the parts of a duration; `None` where a part is
/// malformed or the total does not fit in a `u64`.
fn tokens_value(words: &Vec<String>) -> (r: Option<u64>)
    ensures
        r matches Some(t) ==> tokens_seconds(words.deep_view()) == Some(t as nat),
        r is None ==> (tokens_seconds(words.deep_view()) matches Some(t) ==> t > u64::MAX),
{
    let ghost ws = words.deep_view();
    let mut acc: u64 = 0;
    let mut k: usize = 0;
    assert(ws.take(0) =~= Seq::<Seq<char>>::empty());
    while k < words.len()
        invariant
            k <= words@.len(),
            ws == words.deep_view(),
            tokens_seconds(ws.take(k as int)) == Some(acc as nat),
        decreases words@.len() - k,
    {
        let w = chars_of(words[k].as_str());
        assert(ws[k as int] == w@);
        assert(ws.take(k + 1).drop_last() =~= ws.take(k as int));
        assert(ws.take(k + 1).last() == w@);
        match token_value(&w) {
            Some(n) => {
                match acc.checked_add(n) {
                    Some(sum) => {
                        acc = sum;
                    },
                    None => {
                        proof {
                            if tokens_seconds(ws) is Some {
                                lemma_tokens_prefix(ws, k + 1);
                            }
                        }
                        return None;
                    },
                }
            },
            None => {
                proof {
                    if tokens_seconds(ws) is Some {
                        lemma_tokens_prefix(ws, k + 1);
                    }
                }
                return None;
            },
        }
        k += 1;
    }
    assert(ws.take(k as int) =~= ws);
    Some(acc)
}

/// The seconds of a duration written as a number of seconds or as parts
/// such as `1h 2m 3s`; `None` where it reads as neither or does not fit in
/// a `u64`.
pub fn duration_value(text: &str) -> (r: Option<u64>)
    ensures
        r matches Some(t) ==> duration_seconds(text@) == Some(t as nat),
        r is None ==> (duration_seconds(text@) matches Some(t) ==> t > u64::MAX),
{
    let words = split_whitespace(text);
    let ghost ws = words.deep_view();
    if words.len() == 0 {
        return None;
    }
    if words.len() == 1 {
        let w = chars_of(words[0].as_str());
        assert(ws[0] == w@);
        assert(w@.subrange(0, w@.len() as int) =~= w@);
        proof {
            lemma_words_nonempty(text@);
        }
        match parse_digits(&w, 0, w.len(), u64::MAX) {
            Some(n) => {
                return Some(n);
            },
            None => {
                assert(all_digits(w@) ==> digits_value(w@) > u64::MAX);
            },
        }
    }
    tokens_value(&words)
}

/// The print time that a line states, where it is a slicer's time comment.
pub fn comment_time(line: &str) -> (r: Option<u64>)
    ensures
        r matches Some(t) ==> line_print_time(line@) == Some(t as nat),
        r is None ==> line_print_time(line@) is None,
{
    let body: String;
    if starts_with(line, PRUSA_TIME_PREFIX) {
        let v = chars_of(line);
        let p = chars_of(PRUSA_TIME_PREFIX);
        body = string_from_range(&v, p.len(), v.len());
        assert(body@ =~= line@.skip(PRUSA_TIME_PREFIX@.len() as int));
    } else if starts_with(line, CURA_TIME_PREFIX) {
        let v = chars_of(line);
        let p = chars_of(CURA_TIME_PREFIX);
        body = string_from_range(&v, p.len(), v.len());
        assert(body@ =~= line@.skip(CURA_TIME_PREFIX@.len() as int));
    } else {
        return None;
    }
    duration_value(body.as_str())
}

/// Scans the lines of a G-code file: counts the layer markers, takes the
/// print time from the last slicer time comment (one second per 50 lines
/// where there is none), and collects the height texts of the move
/// commands.
pub fn scan_gcode_lines(lines: &Vec<String>) -> (r: GcodeScan)
    ensures
        r.layer_count == count_layer_markers(lines.deep_view()),
        r.estimated_time == estimated_time_spec(lines.deep_view()),
        r.z_texts.deep_view() == z_texts_spec(lines.deep_view()),
        r.layer_count <= lines@.len(),
{
    let ghost ls = lines.deep_view();
    let mut layer_count: usize = 0;
    let mut z_texts: Vec<String> = Vec::new();
    let mut stated: Option<u64> = None;
    let mut i: usize = 0;
    assert(ls.take(0) =~= Seq::<Seq<char>>::empty());
    while i < lines.len()
        invariant
            i <= lines@.len(),
            ls == lines.deep_view(),
            layer_count == count_layer_markers(ls.take(i as int)),
            layer_count <= i,
            z_texts.deep_view() == z_texts_spec(ls.take(i as int)),
            match stated {
                Some(t) => print_time_spec(ls.take(i as int)) == Some(t as nat),
                None => print_time_spec(ls.take(i as int)) is None,
            },
        decreases lines@.len() - i,
    {
        let line = lines[i].as_str();
        assert(ls.take(i + 1).drop_last() =~= ls.take(i as int));
        assert(ls.take(i + 1).last() == ls[i as int]);
        assert(ls[i as int] == line@);
        if starts_with(line, ";LAYER:") {
            layer_count = layer_count + 1;
        }
        match z_text(line) {
            Some(z) => {
                let ghost old_z = z_texts.deep_view();
                let ghost zv = z@;
                z_texts.push(z);
                assert(z_texts.deep_view() =~= old_z.push(zv));
            },
            None => {},
        }
        match comment_time(line) {
            Some(t) => {
                stated = Some(t);
            },
            None => {},
        }
        i += 1;
    }
    assert(ls.take(i as int) =~= ls);
    proof {
        lemma_count_bound(ls);
    }
    let estimated_time: u64 = match stated {
        Some(t) => t,
        None => (lines.len() as u64) / 50,
    };
    GcodeScan { layer_count, estimated_time, z_texts }
}

} // verus!
