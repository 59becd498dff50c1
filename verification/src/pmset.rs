//! The energy mode that the text of `pmset -g` reports.
//!
//! `pmset -g` exposes:
//!   - `lowpowermode 1` (Intel and Apple Silicon, Low Power Mode)
//!   - `highpowermode 1` (Apple Silicon Pro/Max, High Power Mode)
//!   - `powermode N` (unified indicator on newer systems: 0 = automatic,
//!     1 = low, 2 = high)

use vstd::prelude::*;

use crate::power::EnergyMode;
use crate::text::{
    field_bounds, has_prefix, is_ws, leading_field, lines, newline_index, range_eq,
    skip_ws_backward, skip_ws_forward, starts_with, to_chars, token_len, trim, trim_end,
    trim_start,
};

verus! {

/// The first field of `l` after the key `key` at its start.
pub open spec fn field_after(l: Seq<char>, key: Seq<char>) -> Option<Seq<char>> {
    leading_field(l.skip(key.len() as int))
}

/// What one line of `pmset -g` says: whether it turns Low Power Mode on,
/// and whether it turns High Power Mode on. The line is trimmed, then
/// judged by the first key it begins with, in the order `lowpowermode`,
/// `highpowermode`, `powermode`; the first field after the key is the
/// value.
pub open spec fn line_modes(line: Seq<char>) -> (bool, bool) {
    let l = trim(line);
    if starts_with(l, "lowpowermode"@) {
        (field_after(l, "lowpowermode"@) == Some("1"@), false)
    } else if starts_with(l, "highpowermode"@) {
        (false, field_after(l, "highpowermode"@) == Some("1"@))
    } else if starts_with(l, "powermode"@) {
        let v = field_after(l, "powermode"@);
        (v == Some("1"@), v == Some("2"@))
    } else {
        (false, false)
    }
}

/// Whether some line of `text` turns Low Power Mode on.
pub open spec fn says_low(text: Seq<char>) -> bool {
    exists|k: int| 0 <= k < lines(text).len() && (#[trigger] line_modes(lines(text)[k])).0
}

/// Whether some line of `text` turns High Power Mode on.
pub open spec fn says_high(text: Seq<char>) -> bool {
    exists|k: int| 0 <= k < lines(text).len() && (#[trigger] line_modes(lines(text)[k])).1
}

/// The energy mode given which modes are on: Low Power Mode wins over
/// High Power Mode; with neither, the mode is automatic.
pub open spec fn mode_of(low: bool, high: bool) -> EnergyMode {
    if low {
        EnergyMode::Low
    } else if high {
        EnergyMode::High
    } else {
        EnergyMode::Automatic
    }
}

/// The energy mode that the text of `pmset -g` reports.
pub open spec fn energy_mode_of(text: Seq<char>) -> EnergyMode {
    mode_of(says_low(text), says_high(text))
}

proof fn lemma_newline_index(s: Seq<char>, k: int)
    requires
        0 <= k <= s.len(),
        forall|m: int| 0 <= m < k ==> s[m] != '\n',
        k < s.len() ==> s[k] == '\n',
    ensures
        newline_index(s) == k,
    decreases k,
{
    if k > 0 {
        lemma_newline_index(s.drop_first(), k - 1);
    }
}

/// Splitting off the first line of `s[i..]`, which ends at `j`.
proof fn lemma_lines_front(s: Seq<char>, i: int, j: int)
    requires
        0 <= i <= j <= s.len(),
        i < s.len(),
        forall|m: int| i <= m < j ==> s[m] != '\n',
        j < s.len() ==> s[j] == '\n',
    ensures
        lines(s.skip(i)) == seq![s.subrange(i, j)] + lines(s.skip(
            if j < s.len() {
                j + 1
            } else {
                j
            },
        )),
{
    let t = s.skip(i);
    lemma_newline_index(t, j - i);
    assert(t.take(j - i) =~= s.subrange(i, j));
    if j < s.len() {
        assert(t.skip(j - i + 1) =~= s.skip(j + 1));
    } else {
        assert(t =~= s.subrange(i, j));
        assert(s.skip(j).len() == 0);
        assert(lines(s.skip(j)) =~= Seq::<Seq<char>>::empty());
    }
}


/// Whether some sequence of `ls` satisfies `p`.
pub open spec fn some_satisfies(ls: Seq<Seq<char>>, p: spec_fn(Seq<char>) -> bool) -> bool {
    exists|k: int| 0 <= k < ls.len() && #[trigger] p(ls[k])
}

proof fn lemma_some_concat(x: Seq<Seq<char>>, y: Seq<Seq<char>>, p: spec_fn(Seq<char>) -> bool)
    ensures
        some_satisfies(x + y, p) == (some_satisfies(x, p) || some_satisfies(y, p)),
{
    let xy = x + y;
    if some_satisfies(xy, p) {
        let k = choose|k: int| 0 <= k < xy.len() && #[trigger] p(xy[k]);
        if k < x.len() {
            assert(p(x[k]));
        } else {
            assert(p(y[k - x.len()]));
        }
    }
    if some_satisfies(x, p) {
        let k = choose|k: int| 0 <= k < x.len() && #[trigger] p(x[k]);
        assert(p(xy[k]));
    }
    if some_satisfies(y, p) {
        let k = choose|k: int| 0 <= k < y.len() && #[trigger] p(y[k]);
        assert(p(xy[k + x.len()]));
    }
}

proof fn lemma_newline_index_bounds(s: Seq<char>)
    ensures
        newline_index(s) <= s.len(),
        forall|m: int| 0 <= m < newline_index(s) ==> s[m] != '\n',
        newline_index(s) < s.len() ==> s[newline_index(s) as int] == '\n',
    decreases s.len(),
{
    if s.len() > 0 && s[0] != '\n' {
        let t = s.drop_first();
        lemma_newline_index_bounds(t);
        assert forall|m: int| 0 <= m < newline_index(s) implies s[m] != '\n' by {
            if m > 0 {
                assert(s[m] == t[m - 1]);
            }
        }
    }
}

/// The lines of `a`, a line break, then `b`: a line that satisfies `p`
/// is there exactly when one is among the lines of `a` or of `b`, for any
/// `p` that an empty line does not satisfy.
proof fn lemma_lines_join(a: Seq<char>, b: Seq<char>, p: spec_fn(Seq<char>) -> bool)
    requires
        !p(Seq::<char>::empty()),
    ensures
        some_satisfies(lines(a + seq!['\n'] + b), p) == (some_satisfies(lines(a), p)
            || some_satisfies(lines(b), p)),
    decreases a.len(),
{
    let j = a + seq!['\n'] + b;
    lemma_newline_index_bounds(a);
    let k = newline_index(a);
    if a.len() == 0 {
        lemma_newline_index(j, 0);
        assert(j.take(0) =~= Seq::<char>::empty());
        assert(j.skip(1) =~= b);
        assert(lines(j) == seq![Seq::<char>::empty()] + lines(b));
        lemma_some_concat(seq![Seq::<char>::empty()], lines(b), p);
        assert(lines(a) =~= Seq::<Seq<char>>::empty());
        if some_satisfies(seq![Seq::<char>::empty()], p) {
            let i = choose|i: int| 0 <= i < 1 && #[trigger] p(seq![Seq::<char>::empty()][i]);
            assert(false);
        }
    } else if k < a.len() {
        lemma_newline_index(j, k as int);
        let rest = a.skip(k + 1int);
        assert(j.take(k as int) =~= a.take(k as int));
        assert(j.skip(k + 1int) =~= rest + seq!['\n'] + b);
        lemma_lines_join(rest, b, p);
        lemma_some_concat(seq![a.take(k as int)], lines(rest + seq!['\n'] + b), p);
        lemma_some_concat(seq![a.take(k as int)], lines(rest), p);
    } else {
        lemma_newline_index(j, a.len() as int);
        assert(j.take(a.len() as int) =~= a);
        assert(j.skip(a.len() + 1int) =~= b);
        assert(lines(a) == seq![a]);
        lemma_some_concat(seq![a], lines(b), p);
    }
}

/// An empty line turns no mode on.
proof fn lemma_empty_line_modes()
    ensures
        line_modes(Seq::<char>::empty()) == (false, false),
{
    reveal_strlit("lowpowermode");
    reveal_strlit("highpowermode");
    reveal_strlit("powermode");
    assert(trim(Seq::<char>::empty()) =~= Seq::<char>::empty());
}

/// `pmset -g` output read line by line: joining two outputs with a line
/// break turns a mode on exactly when one of them does, so the energy mode
/// of the joint text depends only on what each part says, not on where
/// its lines stand.
pub proof fn lemma_joined_outputs(a: Seq<char>, b: Seq<char>)
    ensures
        says_low(a + seq!['\n'] + b) == (says_low(a) || says_low(b)),
        says_high(a + seq!['\n'] + b) == (says_high(a) || says_high(b)),
        energy_mode_of(a + seq!['\n'] + b) == energy_mode_of(b + seq!['\n'] + a),
{
    let low = |l: Seq<char>| line_modes(l).0;
    let high = |l: Seq<char>| line_modes(l).1;
    lemma_empty_line_modes();
    lemma_lines_join(a, b, low);
    lemma_lines_join(a, b, high);
    lemma_lines_join(b, a, low);
    lemma_lines_join(b, a, high);
    assert forall|t: Seq<char>| says_low(t) == #[trigger] some_satisfies(lines(t), low) by {
        if says_low(t) {
            let k = choose|k: int| 0 <= k < lines(t).len() && (#[trigger] line_modes(lines(t)[k])).0;
            assert(low(lines(t)[k]));
        }
        if some_satisfies(lines(t), low) {
            let k = choose|k: int| 0 <= k < lines(t).len() && #[trigger] low(lines(t)[k]);
            assert(line_modes(lines(t)[k]).0);
        }
    }
    assert forall|t: Seq<char>| says_high(t) == #[trigger] some_satisfies(lines(t), high) by {
        if says_high(t) {
            let k = choose|k: int| 0 <= k < lines(t).len() && (#[trigger] line_modes(lines(t)[k])).1;
            assert(high(lines(t)[k]));
        }
        if some_satisfies(lines(t), high) {
            let k = choose|k: int| 0 <= k < lines(t).len() && #[trigger] high(lines(t)[k]);
            assert(line_modes(lines(t)[k]).1);
        }
    }
    assert(says_low(a + seq!['\n'] + b) == some_satisfies(lines(a + seq!['\n'] + b), low));
    assert(says_low(b + seq!['\n'] + a) == some_satisfies(lines(b + seq!['\n'] + a), low));
    assert(says_high(a + seq!['\n'] + b) == some_satisfies(lines(a + seq!['\n'] + b), high));
    assert(says_high(b + seq!['\n'] + a) == some_satisfies(lines(b + seq!['\n'] + a), high));
    assert(says_low(a) == some_satisfies(lines(a), low));
    assert(says_low(b) == some_satisfies(lines(b), low));
    assert(says_high(a) == some_satisfies(lines(a), high));
    assert(says_high(b) == some_satisfies(lines(b), high));
}


/// A sequence of characters none of which is whitespace.
pub open spec fn is_word(v: Seq<char>) -> bool {
    v.len() > 0 && forall|i: int| 0 <= i < v.len() ==> !is_ws(#[trigger] v[i])
}

proof fn lemma_token_len_word(v: Seq<char>)
    requires
        forall|i: int| 0 <= i < v.len() ==> !is_ws(#[trigger] v[i]),
    ensures
        token_len(v) == v.len(),
    decreases v.len(),
{
    if v.len() > 0 {
        let t = v.drop_first();
        assert forall|i: int| 0 <= i < t.len() implies !is_ws(#[trigger] t[i]) by {
            assert(t[i] == v[i + 1]);
        }
        lemma_token_len_word(t);
    }
}

/// Leading whitespace other than line breaks.
pub open spec fn is_indent(w: Seq<char>) -> bool {
    forall|i: int| 0 <= i < w.len() ==> is_ws(#[trigger] w[i]) && w[i] != '\n'
}

proof fn lemma_trim_start_indent(w: Seq<char>, x: Seq<char>)
    requires
        forall|i: int| 0 <= i < w.len() ==> is_ws(#[trigger] w[i]),
    ensures
        trim_start(w + x) == trim_start(x),
    decreases w.len(),
{
    if w.len() == 0 {
        assert(w + x =~= x);
    } else {
        let t = w.drop_first();
        assert((w + x)[0] == w[0]);
        assert((w + x).drop_first() =~= t + x);
        assert forall|i: int| 0 <= i < t.len() implies is_ws(#[trigger] t[i]) by {
            assert(t[i] == w[i + 1]);
        }
        lemma_trim_start_indent(t, x);
    }
}

/// The line `key value` after some indentation, a key and a value
/// separated by one space: trimmed it is `key value`, it is the only line
/// of itself, and its first field after the key is the value.
proof fn lemma_key_value_line(indent: Seq<char>, key: Seq<char>, value: Seq<char>)
    requires
        is_indent(indent),
        is_word(key),
        is_word(value),
    ensures
        trim(indent + key + seq![' '] + value) == key + seq![' '] + value,
        lines(indent + key + seq![' '] + value) == seq![indent + key + seq![' '] + value],
        starts_with(key + seq![' '] + value, key),
        field_after(key + seq![' '] + value, key) == Some(value),
{
    let line = key + seq![' '] + value;
    let full = indent + key + seq![' '] + value;
    assert(full =~= indent + line);
    assert(line[0] == key[0]);
    assert(trim_start(line) == line);
    lemma_trim_start_indent(indent, line);
    assert(line.last() == value.last());
    assert(trim_end(line) == line);
    assert forall|m: int| 0 <= m < full.len() implies full[m] != '\n' by {
        if m < indent.len() {
            assert(full[m] == indent[m]);
        } else if m < indent.len() + key.len() {
            assert(full[m] == key[m - indent.len()]);
        } else if m > indent.len() + key.len() {
            assert(full[m] == value[m - indent.len() - key.len() - 1]);
        }
    }
    lemma_newline_index(full, full.len() as int);
    assert(lines(full) == seq![full]);
    assert(line.take(key.len() as int) =~= key);
    let rest = line.skip(key.len() as int);
    assert(rest =~= seq![' '] + value);
    assert(rest[0] == ' ');
    assert(is_ws(' '));
    assert(rest.drop_first() =~= value);
    assert(trim_start(value) == value);
    assert(trim_start(rest) == value);
    lemma_token_len_word(value);
    assert(value.take(value.len() as int) =~= value);
}

/// What a text of one line says is what that line says.
proof fn lemma_one_line(line: Seq<char>)
    requires
        lines(line) == seq![line],
    ensures
        says_low(line) == line_modes(line).0,
        says_high(line) == line_modes(line).1,
{
    if line_modes(line).0 {
        assert(line_modes(lines(line)[0]).0);
    }
    if line_modes(line).1 {
        assert(line_modes(lines(line)[0]).1);
    }
}

proof fn lemma_keys()
    ensures
        is_word("lowpowermode"@),
        is_word("highpowermode"@),
        is_word("powermode"@),
        "lowpowermode"@[0] == 'l',
        "highpowermode"@[0] == 'h',
        "powermode"@[0] == 'p',
        "1"@ == seq!['1'],
        "2"@ == seq!['2'],
{
    reveal_strlit("lowpowermode");
    reveal_strlit("highpowermode");
    reveal_strlit("powermode");
    reveal_strlit("1");
    reveal_strlit("2");
    assert("1"@ =~= seq!['1']);
    assert("2"@ =~= seq!['2']);
}

/// The line `lowpowermode v`, for any value `v` and any indentation,
/// gives Low exactly when `v` is `1`, and the automatic mode otherwise.
pub proof fn lemma_lowpowermode_line(indent: Seq<char>, v: Seq<char>)
    requires
        is_indent(indent),
        is_word(v),
    ensures
        energy_mode_of(indent + "lowpowermode"@ + seq![' '] + v) == if v == "1"@ {
            EnergyMode::Low
        } else {
            EnergyMode::Automatic
        },
{
    lemma_keys();
    let line = indent + "lowpowermode"@ + seq![' '] + v;
    lemma_key_value_line(indent, "lowpowermode"@, v);
    lemma_one_line(line);
}

/// The line `highpowermode v`, for any value `v` and any indentation,
/// gives High exactly when `v` is `1`, and the automatic mode otherwise.
pub proof fn lemma_highpowermode_line(indent: Seq<char>, v: Seq<char>)
    requires
        is_indent(indent),
        is_word(v),
    ensures
        energy_mode_of(indent + "highpowermode"@ + seq![' '] + v) == if v == "1"@ {
            EnergyMode::High
        } else {
            EnergyMode::Automatic
        },
{
    lemma_keys();
    let line = indent + "highpowermode"@ + seq![' '] + v;
    let core = "highpowermode"@ + seq![' '] + v;
    lemma_key_value_line(indent, "highpowermode"@, v);
    lemma_one_line(line);
    assert(core[0] == 'h');
    assert(!starts_with(core, "lowpowermode"@)) by {
        if starts_with(core, "lowpowermode"@) {
            assert(core.take(12)[0] == "lowpowermode"@[0]);
        }
    }
}

/// The line `powermode v`, for any value `v` and any indentation, gives
/// Low when `v` is `1`, High when it is `2`, and the automatic mode
/// otherwise.
pub proof fn lemma_powermode_line(indent: Seq<char>, v: Seq<char>)
    requires
        is_indent(indent),
        is_word(v),
    ensures
        energy_mode_of(indent + "powermode"@ + seq![' '] + v) == if v == "1"@ {
            EnergyMode::Low
        } else if v == "2"@ {
            EnergyMode::High
        } else {
            EnergyMode::Automatic
        },
{
    lemma_keys();
    let line = indent + "powermode"@ + seq![' '] + v;
    let core = "powermode"@ + seq![' '] + v;
    lemma_key_value_line(indent, "powermode"@, v);
    lemma_one_line(line);
    assert(core[0] == 'p');
    assert(!starts_with(core, "lowpowermode"@)) by {
        if starts_with(core, "lowpowermode"@) {
            assert(core.take(12)[0] == "lowpowermode"@[0]);
        }
    }
    assert(!starts_with(core, "highpowermode"@)) by {
        if starts_with(core, "highpowermode"@) {
            assert(core.take(13)[0] == "highpowermode"@[0]);
        }
    }
    assert(seq!['1'] != seq!['2']) by {
        assert(seq!['1'][0] != seq!['2'][0]);
    }
}

/// A line `highpowermode v` whose value is not `1` never turns High Power
/// Mode on: appending it to any output leaves the energy mode as it was.
pub proof fn lemma_highpowermode_off_changes_nothing(text: Seq<char>, indent: Seq<char>, v: Seq<char>)
    requires
        is_indent(indent),
        is_word(v),
        v != "1"@,
    ensures
        energy_mode_of(text + seq!['\n'] + (indent + "highpowermode"@ + seq![' '] + v))
            == energy_mode_of(text),
{
    let line = indent + "highpowermode"@ + seq![' '] + v;
    lemma_highpowermode_line(indent, v);
    lemma_joined_outputs(text, line);
}

/// Low Power Mode wins: once one part of the output turns it on, the
/// energy mode is Low whatever else the output holds, before or after.
pub proof fn lemma_low_wins(a: Seq<char>, b: Seq<char>)
    requires
        says_low(a),
    ensures
        energy_mode_of(a) == EnergyMode::Low,
        energy_mode_of(a + seq!['\n'] + b) == EnergyMode::Low,
        energy_mode_of(b + seq!['\n'] + a) == EnergyMode::Low,
{
    lemma_joined_outputs(a, b);
    lemma_joined_outputs(b, a);
}

/// High Power Mode holds only where some part of the output turns it on
/// and none turns Low Power Mode on.
pub proof fn lemma_high_needs_no_low(text: Seq<char>)
    ensures
        energy_mode_of(text) == EnergyMode::High <==> says_high(text) && !says_low(text),
        energy_mode_of(text) == EnergyMode::Automatic <==> !says_high(text) && !says_low(text),
{
}

/// Whether the first field of `chars[a..b]` is `w`.
fn field_is(chars: &Vec<char>, a: usize, b: usize, w: &Vec<char>) -> (r: bool)
    requires
        a <= b <= chars@.len(),
    ensures
        r == (leading_field(chars@.subrange(a as int, b as int)) == Some(w@)),
{
    match field_bounds(chars, a, b) {
        Some((x, y)) => range_eq(chars, x, y, w),
        None => false,
    }
}

/// What the line `chars[a..b]` says of Low and High Power Mode.
fn read_line(chars: &Vec<char>, a: usize, b: usize) -> (r: (bool, bool))
    requires
        a <= b <= chars@.len(),
    ensures
        r == line_modes(chars@.subrange(a as int, b as int)),
{
    let lo = skip_ws_forward(chars, a, b);
    let hi = skip_ws_backward(chars, lo, b);
    let ghost l = chars@.subrange(lo as int, hi as int);
    assert(trim(chars@.subrange(a as int, b as int)) == l);
    let low_key = to_chars("lowpowermode");
    let high_key = to_chars("highpowermode");
    let key = to_chars("powermode");
    let one = to_chars("1");
    let two = to_chars("2");
    if has_prefix(chars, lo, hi, &low_key) {
        assert(l.skip(low_key@.len() as int) =~= chars@.subrange(lo + low_key@.len(), hi as int));
        (field_is(chars, lo + low_key.len(), hi, &one), false)
    } else if has_prefix(chars, lo, hi, &high_key) {
        assert(l.skip(high_key@.len() as int) =~= chars@.subrange(
            lo + high_key@.len(),
            hi as int,
        ));
        (false, field_is(chars, lo + high_key.len(), hi, &one))
    } else if has_prefix(chars, lo, hi, &key) {
        assert(l.skip(key@.len() as int) =~= chars@.subrange(lo + key@.len(), hi as int));
        (field_is(chars, lo + key.len(), hi, &one), field_is(chars, lo + key.len(), hi, &two))
    } else {
        (false, false)
    }
}

/// The energy mode that `text`, the output of `pmset -g`, reports.
pub fn energy_mode_from_pmset(text: &str) -> (m: EnergyMode)
    ensures
        m == energy_mode_of(text@),
{
    let chars = to_chars(text);
    let n = chars.len();
    let mut low = false;
    let mut high = false;
    let mut i: usize = 0;
    let ghost mut done: Seq<Seq<char>> = seq![];
    assert(chars@.skip(0) =~= chars@);
    while i < n
        invariant
            n == chars@.len(),
            chars@ == text@,
            i <= n,
            lines(chars@) == done + lines(chars@.skip(i as int)),
            low == exists|k: int| 0 <= k < done.len() && (#[trigger] line_modes(done[k])).0,
            high == exists|k: int| 0 <= k < done.len() && (#[trigger] line_modes(done[k])).1,
        decreases n - i,
    {
        let mut j = i;
        while j < n && chars[j] != '\n'
            invariant
                n == chars@.len(),
                i <= j <= n,
                forall|m: int| i <= m < j ==> chars@[m] != '\n',
            decreases n - j,
        {
            j += 1;
        }
        let next = if j < n {
            j + 1
        } else {
            j
        };
        proof {
            lemma_lines_front(chars@, i as int, j as int);
        }
        let (l, h) = read_line(&chars, i, j);
        proof {
            let line = chars@.subrange(i as int, j as int);
            let old_done = done;
            done = done.push(line);
            assert(done[old_done.len() as int] == line);
            assert(forall|k: int| 0 <= k < old_done.len() ==> done[k] == old_done[k]);
            assert(old_done + (seq![line] + lines(chars@.skip(next as int))) =~= done + lines(
                chars@.skip(next as int),
            ));
            if low || l {
                if l {
                    assert(line_modes(done[old_done.len() as int]).0);
                } else {
                    let k = choose|k: int| 0 <= k < old_done.len() && (#[trigger] line_modes(old_done[k])).0;
                    assert(line_modes(done[k]).0);
                }
            }
            if high || h {
                if h {
                    assert(line_modes(done[old_done.len() as int]).1);
                } else {
                    let k = choose|k: int| 0 <= k < old_done.len() && (#[trigger] line_modes(old_done[k])).1;
                    assert(line_modes(done[k]).1);
                }
            }
        }
        low = low || l;
        high = high || h;
        i = next;
    }
    assert(chars@.skip(n as int).len() == 0);
    assert(lines(chars@.skip(n as int)) =~= Seq::<Seq<char>>::empty());
    assert(lines(chars@) =~= done);
    if low {
        EnergyMode::Low
    } else if high {
        EnergyMode::High
    } else {
        EnergyMode::Automatic
    }
}

} // verus!
