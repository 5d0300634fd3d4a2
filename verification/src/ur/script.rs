//! The control script: the transforms that it goes through before it is sent to
//! the robot.
//!
//! 1. Version gating. A line that needs a minimum version carries a marker
//!    `$M.mm`, or `$M.mm|M.mm` with a second version that also serves. A line
//!    whose requirement the controller does not meet is deleted. On a line that
//!    is kept the marker is blanked: five characters become spaces, or ten for
//!    the marker with two versions, which preserves the indentation.
//! 2. Injection. Text is put in directly after named anchors.

use super::error::{UrError, UrFault, UrResult};
use crate::text;
use vstd::prelude::*;
use vstd::string::*;

verus! {

/// The TCP port of the script server.
pub const SCRIPT_PORT: u16 = 30003;

/// The anchor for the offset of the float registers.
pub const INJECT_FLOAT_OFFSET: &'static str = "# float register offset\n";

/// The anchor for the offset of the integer registers.
pub const INJECT_INT_OFFSET: &'static str = "# int register offset\n";

/// Text to be put in directly after an anchor.
#[derive(Debug, Clone, PartialEq, Eq)]
pub struct Injection {
    pub search: String,
    pub inject: String,
}

/// The number that the digits at the start of `s` spell; zero where it does not
/// fit in 32 bits.
pub open spec fn leading_number(s: Seq<char>) -> nat {
    let v = text::digits_value(s.take(text::digit_run(s) as int));
    if v > u32::MAX {
        0
    } else {
        v
    }
}

/// The version `M.mm` at the start of `s`, and the number of its characters.
pub open spec fn leading_version(s: Seq<char>) -> Option<(nat, nat, nat)> {
    let m = text::digit_run(s);
    let after = s.skip(m as int);
    if m == 0 || after.len() == 0 || after[0] != '.' {
        None
    } else {
        let rest = after.skip(1);
        let n = text::digit_run(rest);
        if n == 0 {
            None
        } else {
            Some((leading_number(s), leading_number(rest), m + 1 + n))
        }
    }
}

/// A version marker.
#[derive(Debug, Clone, Copy, PartialEq, Eq)]
pub struct Gate {
    pub major: u32,
    pub minor: u32,
    /// A second version that also serves.
    pub extra: Option<(u32, u32)>,
    /// How many characters are blanked.
    pub blank_width: usize,
}

/// Whether the fifth byte of `s` is a `|`: it is the fifth character, behind
/// characters of one byte each.
pub open spec fn has_bar(s: Seq<char>) -> bool {
    &&& s.len() > 4
    &&& s[4] == '|'
    &&& forall|i: int| 0 <= i < 4 ==> (#[trigger] s[i] as u32) < 0x80
}

/// The marker at the start of `s`, which begins with a `$`. It names a second
/// version where the fifth byte behind the `$` is a `|`.
pub open spec fn leading_gate(s: Seq<char>) -> Option<Gate> {
    let body = s.skip(1);
    match leading_version(body) {
        None => None,
        Some((major, minor, _)) => if has_bar(body) {
            match leading_version(body.skip(5)) {
                None => None,
                Some((m, n, _)) => Some(
                    Gate {
                        major: major as u32,
                        minor: minor as u32,
                        extra: Some((m as u32, n as u32)),
                        blank_width: 10,
                    },
                ),
            }
        } else {
            Some(
                Gate {
                    major: major as u32,
                    minor: minor as u32,
                    extra: None,
                    blank_width: 5,
                },
            )
        },
    }
}

/// Whether a controller of this version meets the requirement of a marker: it
/// is of a newer major version, of the same one with a minor version high
/// enough, or of the second version named. Direct torque, which `$5.23` marks,
/// came to the generation with the major version 10 only with 10.9.
pub open spec fn meets(g: Gate, major: u32, minor: u32) -> bool {
    let supported = major > g.major || (major == g.major && minor >= g.minor) || (
    g.extra matches Some(e) && major == e.0 && minor >= e.1);
    let lacks_torque = major == 10 && minor < 9 && g.major == 5 && g.minor == 23;
    supported && !lacks_torque
}

/// `n` spaces.
pub open spec fn blanks(n: nat) -> Seq<char> {
    Seq::new(n, |i: int| ' ')
}

/// `s` up to the start of its last line.
pub open spec fn without_last_line(s: Seq<char>) -> Seq<char> {
    s.take(text::last_position(s, '\n') + 1)
}

/// `s` behind the end of its first line.
pub open spec fn behind_line(s: Seq<char>) -> Seq<char> {
    let at = text::position(s, '\n');
    if at < s.len() {
        s.skip(at as int + 1)
    } else {
        Seq::empty()
    }
}

/// `s` without its first `n` characters, as far as it has them.
pub open spec fn behind(s: Seq<char>, n: nat) -> Seq<char> {
    if n < s.len() {
        s.skip(n as int)
    } else {
        Seq::empty()
    }
}

/// The script for a controller of this version, `rest` still to be gone
/// through; `None` where a marker cannot be read.
pub open spec fn gated(done: Seq<char>, rest: Seq<char>, major: u32, minor: u32) -> Option<
    Seq<char>,
>
    decreases rest.len(),
{
    let at = text::position(rest, '$') as int;
    if at >= rest.len() {
        Some(done + rest)
    } else {
        let before = done + rest.take(at);
        let marked = rest.skip(at);
        match leading_gate(marked) {
            None => None,
            Some(g) => if g.blank_width > 0 && meets(g, major, minor) {
                gated(
                    before + blanks(g.blank_width as nat),
                    behind(marked, g.blank_width as nat),
                    major,
                    minor,
                )
            } else {
                gated(without_last_line(before), behind_line(marked), major, minor)
            },
        }
    }
}

fn number_at(chars: &[char], from: usize, n: usize) -> (r: u32)
    requires
        from + n <= chars@.len(),
        n > 0,
        n == text::digit_run(chars@.skip(from as int)),
        forall|k: int| from <= k < from + n ==> text::is_digit(#[trigger] chars@[k]),
    ensures
        r == leading_number(chars@.skip(from as int)),
{
    proof {
        let d = chars@.subrange(from as int, from + n);
        assert(d =~= chars@.skip(from as int).take(n as int));
        assert(text::is_digits(d));
    }
    assert(chars@.len() == chars.len());
    match text::parse_digits(chars, from, from + n, 0xffff_ffff) {
        Some(v) => v as u32,
        None => 0,
    }
}

/// The version at `from`, and the number of its characters.
fn parse_version(chars: &[char], from: usize) -> (r: Option<(u32, u32, usize)>)
    requires
        from <= chars@.len(),
    ensures
        match r {
            Some((a, b, n)) => leading_version(chars@.skip(from as int)) == Some(
                (a as nat, b as nat, n as nat),
            ),
            None => leading_version(chars@.skip(from as int)) is None,
        },
{
    let ghost s = chars@.skip(from as int);
    assert(chars@.len() == chars.len());
    let m: usize = text::count_digits(chars, from);
    if m == 0 || from + m == chars.len() || chars[from + m] != '.' {
        return None;
    }
    let dot: usize = from + m;
    proof {
        assert(s.skip(m as int).skip(1) =~= chars@.skip(dot + 1));
    }
    let n: usize = text::count_digits(chars, dot + 1);
    if n == 0 {
        return None;
    }
    let major: u32 = number_at(chars, from, m);
    let minor: u32 = number_at(chars, dot + 1, n);
    Some((major, minor, m + 1 + n))
}

fn bar_at(chars: &[char], at: usize) -> (r: bool)
    requires
        at <= chars@.len(),
    ensures
        r == has_bar(chars@.skip(at as int)),
{
    let ghost s = chars@.skip(at as int);
    assert(chars@.len() == chars.len());
    if chars.len() - at <= 4 || chars[at + 4] != '|' {
        return false;
    }
    let mut i: usize = 0;
    while i < 4
        invariant
            i <= 4,
            at + 4 < chars@.len(),
            chars@.len() == chars.len(),
            s == chars@.skip(at as int),
            forall|j: int| 0 <= j < i ==> (#[trigger] s[j] as u32) < 0x80,
        decreases 4 - i,
    {
        if chars[at + i] as u32 >= 0x80 {
            assert(s[i as int] as u32 >= 0x80);
            return false;
        }
        i = i + 1;
    }
    true
}

impl Gate {
    /// The marker at `at`, where a `$` stands.
    fn parse(chars: &[char], at: usize) -> (r: Option<Gate>)
        requires
            at < chars@.len(),
        ensures
            r == leading_gate(chars@.skip(at as int)),
            r matches Some(g) ==> g.blank_width == 5 || g.blank_width == 10,
    {
        let ghost s = chars@.skip(at as int);
        let ghost body = s.skip(1);
        assert(chars@.len() == chars.len());
        proof {
            assert(body =~= chars@.skip(at + 1));
        }
        let (major, minor, _) = match parse_version(chars, at + 1) {
            Some(v) => v,
            None => return None,
        };
        let bar = bar_at(chars, at + 1);
        if bar {
            proof {
                assert(body.skip(5) =~= chars@.skip(at + 6));
            }
            let (em, en, _) = match parse_version(chars, at + 6) {
                Some(v) => v,
                None => return None,
            };
            return Some(Gate { major, minor, extra: Some((em, en)), blank_width: 10 });
        }
        Some(Gate { major, minor, extra: None, blank_width: 5 })
    }

    /// Whether a controller of this version meets the requirement.
    fn met_by(&self, major: u32, minor: u32) -> (r: bool)
        ensures
            r == meets(*self, major, minor),
    {
        let by_extra: bool = match self.extra {
            Some((m, n)) => major == m && minor >= n,
            None => false,
        };
        let supported: bool = major > self.major || (major == self.major && minor >= self.minor)
            || by_extra;
        let lacks_torque: bool = major == 10 && minor < 9 && self.major == 5 && self.minor == 23;
        supported && !lacks_torque
    }
}

fn push_range(out: &mut Vec<char>, chars: &[char], from: usize, to: usize)
    requires
        from <= to <= chars@.len(),
    ensures
        final(out)@ == old(out)@ + chars@.subrange(from as int, to as int),
{
    let mut i: usize = from;
    while i < to
        invariant
            from <= i <= to <= chars@.len(),
            out@ =~= old(out)@ + chars@.subrange(from as int, i as int),
        decreases to - i,
    {
        out.push(chars[i]);
        i = i + 1;
    }
}

fn push_blanks(out: &mut Vec<char>, n: usize)
    ensures
        final(out)@ == old(out)@ + blanks(n as nat),
{
    let mut i: usize = 0;
    while i < n
        invariant
            i <= n,
            out@ =~= old(out)@ + blanks(i as nat),
        decreases n - i,
    {
        out.push(' ');
        i = i + 1;
    }
}

fn drop_last_line(out: &mut Vec<char>)
    ensures
        final(out)@ == without_last_line(old(out)@),
{
    let n: usize = out.len();
    let keep: usize = match text::find_last(out.as_slice(), n, '\n') {
        Some(i) => i + 1,
        None => 0,
    };
    proof {
        assert(out@.take(n as int) =~= out@);
    }
    out.truncate(keep);
    proof {
        assert(out@ =~= without_last_line(old(out)@));
    }
}

/// Deletes the lines that the controller is too old for, and blanks the markers
/// of those that stay.
pub fn remove_unsupported_functions(script: &str, major: u32, minor: u32) -> (r: UrResult<String>)
    ensures
        match gated(Seq::empty(), script@, major, minor) {
            Some(t) => r is Ok && r->Ok_0@ == t,
            None => r is Err && r->Err_0@ == UrFault::Script(
                "could not read the control version required from the control script"@,
            ),
        },
{
    let chars = text::chars_of(script);
    let c = chars.as_slice();
    let mut out: Vec<char> = Vec::new();
    let mut i: usize = 0;
    proof {
        assert(c@.skip(0) =~= script@);
        assert(out@ =~= Seq::empty());
    }
    loop
        invariant
            i <= c@.len(),
            c@ == script@,
            c@.len() == c.len(),
            gated(Seq::empty(), script@, major, minor) == gated(
                out@,
                c@.skip(i as int),
                major,
                minor,
            ),
        decreases c@.len() - i,
    {
        let ghost rest = c@.skip(i as int);
        let at: usize = text::count_before(c, i, '$');
        if at == c.len() - i {
            push_range(&mut out, c, i, c.len());
            proof {
                assert(c@.subrange(i as int, c@.len() as int) =~= rest);
            }
            let all = text::string_of(out.as_slice(), 0, out.len());
            proof {
                assert(out@.subrange(0, out@.len() as int) =~= out@);
            }
            return Ok(all);
        }
        let here: usize = i + at;
        push_range(&mut out, c, i, here);
        let ghost marked = rest.skip(at as int);
        proof {
            assert(c@.subrange(i as int, here as int) =~= rest.take(at as int));
            assert(marked =~= c@.skip(here as int));
        }
        let gate = match Gate::parse(c, here) {
            Some(g) => g,
            None => {
                return Err(
                    UrError::Script(
                        "could not read the control version required from the control script".to_owned(),
                    ),
                );
            },
        };
        if gate.met_by(major, minor) {
            push_blanks(&mut out, gate.blank_width);
            if gate.blank_width < c.len() - here {
                i = here + gate.blank_width;
            } else {
                i = c.len();
            }
            proof {
                assert(behind(marked, gate.blank_width as nat) =~= c@.skip(i as int));
            }
        } else {
            drop_last_line(&mut out);
            let eol: usize = text::count_before(c, here, '\n');
            if eol < c.len() - here {
                i = here + eol + 1;
            } else {
                i = c.len();
            }
            proof {
                assert(behind_line(marked) =~= c@.skip(i as int));
            }
        }
    }
}

proof fn lemma_prefix_lacks(s: Seq<char>, c: char, n: int)
    requires
        text::lacks(s, c),
        0 <= n <= s.len(),
    ensures
        text::lacks(s.take(n), c),
{
    assert forall|i: int| 0 <= i < n implies #[trigger] s.take(n)[i] != c by {
        assert(s[i] != c);
    }
}

proof fn lemma_last_position_bound(s: Seq<char>, c: char)
    ensures
        -1 <= text::last_position(s, c) < s.len() || s.len() == 0,
        text::last_position(s, c) >= -1,
        text::last_position(s, c) + 1 <= s.len(),
    decreases s.len(),
{
    if s.len() > 0 && s.last() != c {
        lemma_last_position_bound(s.drop_last(), c);
    }
}

/// No marker is left in a gated script.
pub proof fn law_no_marker_survives(done: Seq<char>, rest: Seq<char>, major: u32, minor: u32)
    requires
        text::lacks(done, '$'),
    ensures
        gated(done, rest, major, minor) matches Some(t) ==> text::lacks(t, '$'),
    decreases rest.len(),
{
    let at = text::position(rest, '$') as int;
    text::lemma_position(rest, '$');
    let before = done + rest.take(at);
    assert(text::lacks(before, '$')) by {
        assert forall|i: int| 0 <= i < before.len() implies #[trigger] before[i] != '$' by {
            if i < done.len() {
                assert(done[i] != '$');
            } else {
                assert(rest.take(at)[i - done.len()] != '$');
            }
        }
    }
    if at >= rest.len() {
        assert(rest.take(at) =~= rest);
    } else {
        let marked = rest.skip(at);
        if let Some(g) = leading_gate(marked) {
            let w = g.blank_width as nat;
            if w > 0 && meets(g, major, minor) {
                let grown = before + blanks(w);
                assert(text::lacks(grown, '$')) by {
                    assert forall|i: int| 0 <= i < grown.len() implies #[trigger] grown[i] != '$' by {
                        if i < before.len() {
                            assert(before[i] != '$');
                        }
                    }
                }
                law_no_marker_survives(grown, behind(marked, w), major, minor);
            } else {
                lemma_last_position_bound(before, '\n');
                lemma_prefix_lacks(before, '$', text::last_position(before, '\n') + 1);
                law_no_marker_survives(
                    without_last_line(before),
                    behind_line(marked),
                    major,
                    minor,
                );
            }
        }
    }
}

/// `s` with `inject` put in directly after the first `search`. Without a
/// `search` nothing changes.
pub open spec fn injected_one(s: Seq<char>, search: Seq<char>, inject: Seq<char>) -> Seq<char> {
    if text::occurs(s, search) {
        let at = (choose|i: int| text::first_at(s, search, i)) + search.len();
        s.take(at) + inject + s.skip(at)
    } else {
        s
    }
}

/// What an injection says.
pub open spec fn injection_pairs(v: Seq<Injection>) -> Seq<(Seq<char>, Seq<char>)> {
    v.map_values(|i: Injection| (i.search@, i.inject@))
}

/// `s` after the first `n` injections.
pub open spec fn injected(s: Seq<char>, pairs: Seq<(Seq<char>, Seq<char>)>, n: nat) -> Seq<char>
    decreases n,
{
    if n == 0 {
        s
    } else {
        let (search, inject) = pairs[n - 1];
        injected_one(injected(s, pairs, (n - 1) as nat), search, inject)
    }
}

proof fn lemma_first_is_chosen(s: Seq<char>, search: Seq<char>, at: int)
    requires
        text::first_at(s, search, at),
    ensures
        (choose|i: int| text::first_at(s, search, i)) == at,
{
    let c = choose|i: int| text::first_at(s, search, i);
    assert(text::first_at(s, search, c));
    if c < at {
        assert(!text::stands_at(s, search, c));
    } else if at < c {
        assert(!text::stands_at(s, search, at));
    }
}

fn inject_one(script: &Vec<char>, search: &Vec<char>, inject: &Vec<char>) -> (r: Vec<char>)
    ensures
        r@ == injected_one(script@, search@, inject@),
{
    let mut out: Vec<char> = Vec::new();
    match text::find(script.as_slice(), search.as_slice()) {
        Some(at) => {
            proof {
                lemma_first_is_chosen(script@, search@, at as int);
                assert(text::stands_at(script@, search@, at as int));
                assert(script@.len() == script.len());
            }
            let end: usize = at + search.len();
            push_range(&mut out, script.as_slice(), 0, end);
            push_range(&mut out, inject.as_slice(), 0, inject.len());
            push_range(&mut out, script.as_slice(), end, script.len());
            proof {
                assert(out@ =~= injected_one(script@, search@, inject@));
            }
        },
        None => {
            push_range(&mut out, script.as_slice(), 0, script.len());
            proof {
                assert(out@ =~= script@);
            }
        },
    }
    out
}

/// Puts the text of each injection in directly after its anchor. An anchor that
/// does not occur is skipped.
pub fn inject(script: &str, injections: &Vec<Injection>) -> (r: String)
    ensures
        r@ == injected(script@, injection_pairs(injections@), injections@.len()),
{
    let ghost pairs = injection_pairs(injections@);
    let mut out = text::chars_of(script);
    let mut i: usize = 0;
    while i < injections.len()
        invariant
            i <= injections@.len(),
            pairs == injection_pairs(injections@),
            out@ == injected(script@, pairs, i as nat),
        decreases injections@.len() - i,
    {
        let search = text::chars_of(injections[i].search.as_str());
        let text_in = text::chars_of(injections[i].inject.as_str());
        proof {
            assert(pairs[i as int] == (search@, text_in@));
        }
        out = inject_one(&out, &search, &text_in);
        i = i + 1;
    }
    let all = text::string_of(out.as_slice(), 0, out.len());
    proof {
        assert(out@.subrange(0, out@.len() as int) =~= out@);
    }
    all
}

/// Builds the control script as it is sent: `body` wrapped in a function, gated,
/// and with the injections put in.
pub fn build_control_script(body: &str, major: u32, minor: u32, injections: &Vec<Injection>) -> (r:
    UrResult<String>)
    ensures
        match gated(
            Seq::empty(),
            "def rtde_control():\n"@ + body@ + "end\n"@,
            major,
            minor,
        ) {
            Some(t) => r is Ok && r->Ok_0@ == injected(
                t,
                injection_pairs(injections@),
                injections@.len(),
            ),
            None => r is Err && r->Err_0@ == UrFault::Script(
                "could not read the control version required from the control script"@,
            ),
        },
{
    let mut s = "def rtde_control():\n".to_owned();
    s.append(body);
    s.append("end\n");
    match remove_unsupported_functions(s.as_str(), major, minor) {
        Ok(t) => Ok(inject(t.as_str(), injections)),
        Err(e) => Err(e),
    }
}

/// The text before a line feed, without a carriage return at its end.
pub open spec fn without_return(s: Seq<char>) -> Seq<char> {
    if s.len() > 0 && s.last() == '\r' {
        s.drop_last()
    } else {
        s
    }
}

/// Each line of `s` behind a tab and with a line feed. A line ends with a line
/// feed or with a carriage return and a line feed.
pub open spec fn indented(s: Seq<char>) -> Seq<char>
    decreases s.len(),
{
    if s.len() == 0 {
        Seq::empty()
    } else {
        let at = text::position(s, '\n') as int;
        if at < s.len() {
            seq!['\t'] + without_return(s.take(at)) + seq!['\n'] + indented(s.skip(at + 1))
        } else {
            seq!['\t'] + s + seq!['\n']
        }
    }
}

proof fn lemma_line_indented(done: Seq<char>, rest: Seq<char>, at: int)
    requires
        at == text::position(rest, '\n'),
        at < rest.len(),
    ensures
        done + seq!['\t'] + without_return(rest.take(at)) + seq!['\n'] + indented(rest.skip(at + 1))
            == done + indented(rest),
{
    let line = without_return(rest.take(at));
    let more = indented(rest.skip(at + 1));
    assert(indented(rest) == seq!['\t'] + line + seq!['\n'] + more);
    assert(done + seq!['\t'] + line + seq!['\n'] + more =~= done + (seq!['\t'] + line + seq!['\n']
        + more));
}

proof fn lemma_last_line_indented(done: Seq<char>, rest: Seq<char>)
    requires
        rest.len() > 0,
        text::position(rest, '\n') >= rest.len(),
    ensures
        done + seq!['\t'] + rest + seq!['\n'] == done + indented(rest),
{
    assert(done + seq!['\t'] + rest + seq!['\n'] =~= done + (seq!['\t'] + rest + seq!['\n']));
}

/// Appends a line behind a tab and with a line feed.
fn push_line(out: &mut String, chars: &[char], from: usize, to: usize)
    requires
        from <= to <= chars@.len(),
    ensures
        final(out)@ == old(out)@ + seq!['\t'] + chars@.subrange(from as int, to as int)
            + seq!['\n'],
{
    let ghost before = out@;
    out.push('\t');
    assert(out@ =~= before + seq!['\t']);
    text::push_chars(out, chars, from, to);
    let ghost line = out@;
    out.push('\n');
    assert(out@ =~= line + seq!['\n']);
}

/// Wraps a user's script so that its end can be observed: each line is indented
/// into a function, whose last statement counts up an output register.
pub fn wrap_custom_script(script: &str) -> (r: String)
    ensures
        r@ == "def custom_func():\n"@ + indented(script@)
            + "\twrite_output_integer_register(12, read_output_integer_register(12)+1)\n"@
            + "end\n"@,
{
    let chars = text::chars_of(script);
    let c = chars.as_slice();
    let mut out = "def custom_func():\n".to_owned();
    let ghost head = out@;
    let mut i: usize = 0;
    proof {
        assert(c@.skip(0) =~= script@);
    }
    while i < c.len()
        invariant
            i <= c@.len(),
            c@ == script@,
            c@.len() == c.len(),
            out@ + indented(c@.skip(i as int)) == head + indented(script@),
        decreases c@.len() - i,
    {
        let ghost before = out@;
        let ghost rest = c@.skip(i as int);
        let at: usize = text::count_before(c, i, '\n');
        let end: usize = i + at;
        if end < c.len() {
            let stop: usize = if end > i && c[end - 1] == '\r' {
                end - 1
            } else {
                end
            };
            push_line(&mut out, c, i, stop);
            proof {
                assert(without_return(rest.take(at as int)) =~= c@.subrange(i as int, stop as int));
                assert(rest.skip(at + 1) =~= c@.skip(end + 1));
                lemma_line_indented(before, rest, at as int);
            }
            i = end + 1;
        } else {
            push_line(&mut out, c, i, end);
            proof {
                assert(c@.subrange(i as int, end as int) =~= rest);
                assert(c@.skip(end as int) =~= Seq::empty());
                lemma_last_line_indented(before, rest);
                assert(out@ + indented(c@.skip(end as int)) =~= out@);
            }
            i = end;
        }
    }
    proof {
        assert(c@.skip(i as int) =~= Seq::empty());
        assert(out@ + indented(c@.skip(i as int)) =~= out@);
    }
    out.append("\twrite_output_integer_register(12, read_output_integer_register(12)+1)\n");
    out.append("end\n");
    out
}

/// A version as one number: a newer version is the greater number.
pub open spec fn version_rank(major: u32, minor: u32) -> int {
    major * 0x1_0000_0000 + minor
}

/// A marker with one version is met only from that version on, whatever the
/// minor version of an older major version. The one exception to the converse
/// is direct torque, which versions 10.0 to 10.8 lack.
pub proof fn law_marker_is_a_minimum_version(g: Gate, major: u32, minor: u32)
    requires
        g.extra is None,
    ensures
        meets(g, major, minor) ==> version_rank(major, minor) >= version_rank(g.major, g.minor),
        major < g.major ==> !meets(g, major, minor),
        version_rank(major, minor) >= version_rank(g.major, g.minor) && !meets(g, major, minor)
            ==> g.major == 5 && g.minor == 23 && major == 10 && minor < 9,
        g.major == 5 && g.minor == 23 && major == 10 ==> (meets(g, major, minor) <==> minor >= 9),
{
}

/// A marker with a second version is met from the first version on, and by the
/// major version of the second from its minor version on; by nothing else.
pub proof fn law_second_version_also_serves(g: Gate, second: (u32, u32), major: u32, minor: u32)
    requires
        g.extra == Some(second),
        !(g.major == 5 && g.minor == 23),
    ensures
        meets(g, major, minor) <==> (version_rank(major, minor) >= version_rank(g.major, g.minor)
            || (major == second.0 && minor >= second.1)),
        meets(Gate { extra: None, ..g }, major, minor) ==> meets(g, major, minor),
{
}

/// What an older controller meets, a newer one of the same major version meets
/// too.
pub proof fn law_newer_minor_version_keeps_more(g: Gate, major: u32, older: u32, newer: u32)
    requires
        older <= newer,
        meets(g, major, older),
    ensures
        meets(g, major, newer),
{
}

proof fn lemma_last_position(s: Seq<char>, c: char)
    ensures
        ({
            let p = text::last_position(s, c);
            &&& p >= 0 ==> p < s.len() && s[p] == c
            &&& forall|i: int| p < i < s.len() && i >= 0 ==> #[trigger] s[i] != c
        }),
    decreases s.len(),
{
    if s.len() > 0 && s.last() != c {
        lemma_last_position(s.drop_last(), c);
        assert forall|i: int|
            text::last_position(s, c) < i < s.len() && i >= 0 implies #[trigger] s[i] != c by {
            if i < s.len() - 1 {
                assert(s.drop_last()[i] == s[i]);
            }
        }
    }
}

proof fn lemma_position_is(s: Seq<char>, c: char, at: int)
    requires
        0 <= at < s.len(),
        s[at] == c,
        forall|i: int| 0 <= i < at ==> #[trigger] s[i] != c,
    ensures
        text::position(s, c) == at,
{
    text::lemma_position(s, c);
    lemma_none_before_position(s, c);
}

proof fn lemma_none_before_position(s: Seq<char>, c: char)
    ensures
        forall|i: int| 0 <= i < text::position(s, c) ==> #[trigger] s[i] != c,
{
    text::lemma_position(s, c);
    let p = text::position(s, c) as int;
    assert forall|i: int| 0 <= i < p implies #[trigger] s[i] != c by {
        assert(s.take(p)[i] == s[i]);
    }
}

proof fn lemma_run_of_decimal(s: Seq<char>, n: nat)
    requires
        text::decimal(n).len() < s.len(),
        s.take(text::decimal(n).len() as int) == text::decimal(n),
        !text::is_digit(s[text::decimal(n).len() as int]),
        n <= u32::MAX,
    ensures
        text::digit_run(s) == text::decimal(n).len(),
        text::decimal(n).len() > 0,
        leading_number(s) == n,
{
    let d = text::decimal(n);
    text::lemma_digit_run(s);
    text::lemma_decimal_is_digits(n);
    text::lemma_decimal_value(n);
    assert forall|i: int| 0 <= i < d.len() implies text::is_digit(#[trigger] s[i]) by {
        assert(s.take(d.len() as int)[i] == s[i]);
        assert(text::is_digit(d[i]));
    }
}

/// The text `M.m` of a version.
pub open spec fn version_text(major: u32, minor: u32) -> Seq<char> {
    text::decimal(major as nat) + seq!['.'] + text::decimal(minor as nat)
}

/// `line` with `n` characters from `at` on turned into spaces.
pub open spec fn blanked(line: Seq<char>, at: int, n: int) -> Seq<char> {
    Seq::new(line.len(), |i: int| if at <= i < at + n { ' ' } else { line[i] })
}

proof fn lemma_version_leads(s: Seq<char>, major: u32, minor: u32)
    requires
        version_text(major, minor).len() < s.len(),
        s.take(version_text(major, minor).len() as int) == version_text(major, minor),
        !text::is_digit(s[version_text(major, minor).len() as int]),
    ensures
        leading_version(s) == Some(
            (major as nat, minor as nat, version_text(major, minor).len()),
        ),
        version_text(major, minor).len() >= 3,
{
    let a = text::decimal(major as nat);
    let b = text::decimal(minor as nat);
    let v = version_text(major, minor);
    let n = a.len() as int;
    assert forall|i: int| 0 <= i < v.len() implies #[trigger] s[i] == v[i] by {
        assert(s.take(v.len() as int)[i] == s[i]);
    }
    assert(s.take(n) =~= a);
    assert(s[n] == v[n] && v[n] == '.');
    lemma_run_of_decimal(s, major as nat);
    let rest = s.skip(n).skip(1);
    assert(rest.take(b.len() as int) =~= b) by {
        assert forall|i: int| 0 <= i < b.len() implies rest[i] == #[trigger] b[i] by {
            assert(s[n + 1 + i] == v[n + 1 + i]);
        }
    }
    assert(rest[b.len() as int] == s[v.len() as int]);
    lemma_run_of_decimal(rest, minor as nat);
}

/// A line without a marker stays as it is.
pub proof fn law_plain_line_is_kept(
    done: Seq<char>,
    line: Seq<char>,
    after: Seq<char>,
    major: u32,
    minor: u32,
)
    requires
        text::lacks(line, '$'),
    ensures
        gated(done, line + after, major, minor) == gated(done + line, after, major, minor),
        gated(done, line, major, minor) == Some(done + line),
{
    let s = line + after;
    text::lemma_position(s, '$');
    text::lemma_position(after, '$');
    text::lemma_position(line, '$');
    lemma_none_before_position(after, '$');
    let p = text::position(after, '$') as int;
    let q = text::position(s, '$') as int;
    assert forall|i: int| 0 <= i < line.len() implies #[trigger] s[i] != '$' by {
        assert(line[i] != '$');
    }
    if p < after.len() {
        assert(s[line.len() + p] == '$');
        assert forall|i: int| 0 <= i < line.len() + p implies #[trigger] s[i] != '$' by {
            if i >= line.len() {
                assert(after[i - line.len()] != '$');
            }
        }
        lemma_position_is(s, '$', line.len() + p);
        assert(done + s.take(q) =~= done + line + after.take(p));
        assert(s.skip(q) =~= after.skip(p));
    } else {
        if q < s.len() {
            assert(s[q] == '$');
            assert(after[q - line.len()] != '$');
        }
        assert(done + s =~= done + line + after);
    }
    if text::position(line, '$') < line.len() {
        assert(line[text::position(line, '$') as int] != '$');
    }
}

/// A marker with one version, the text behind it, and the end of the line.
pub open spec fn marked_rest(needed: (u32, u32), tail: Seq<char>) -> Seq<char> {
    seq!['$'] + version_text(needed.0, needed.1) + seq![' '] + tail + seq!['\n']
}

proof fn lemma_marked_rest(needed: (u32, u32), tail: Seq<char>)
    requires
        text::lacks(tail, '$') && text::lacks(tail, '\n') && text::lacks(tail, '|'),
    ensures
        ({
            let m = marked_rest(needed, tail);
            let v = version_text(needed.0, needed.1);
            &&& m.len() == v.len() + tail.len() + 3
            &&& v.len() >= 3
            &&& m[0] == '$'
            &&& m.last() == '\n'
            &&& m[v.len() as int + 1] == ' '
            &&& forall|i: int| 0 <= i < v.len() ==> m[i + 1] == #[trigger] v[i]
            &&& forall|i: int| 1 <= i < m.len() ==> #[trigger] m[i] != '$' && m[i] != '|'
            &&& forall|i: int| 0 <= i < m.len() - 1 ==> #[trigger] m[i] != '\n'
        }),
{
    let m = marked_rest(needed, tail);
    let v = version_text(needed.0, needed.1);
    let a = text::decimal(needed.0 as nat);
    let b = text::decimal(needed.1 as nat);
    text::lemma_decimal_is_digits(needed.0 as nat);
    text::lemma_decimal_is_digits(needed.1 as nat);
    assert forall|i: int| 1 <= i < m.len() implies #[trigger] m[i] != '$' && m[i] != '|' && (i
        < m.len() - 1 ==> m[i] != '\n') by {
        if i < 1 + a.len() {
            assert(text::is_digit(a[i - 1]));
        } else if 2 + a.len() <= i < 1 + v.len() {
            assert(m[i] == b[i - 2 - a.len()]);
            assert(text::is_digit(b[i - 2 - a.len()]));
        } else if 2 + v.len() <= i < m.len() - 1 {
            assert(m[i] == tail[i - 2 - v.len()]);
        }
    }
}

proof fn lemma_marked_line(
    done: Seq<char>,
    lead: Seq<char>,
    marked: Seq<char>,
    major: u32,
    minor: u32,
)
    requires
        text::lacks(lead, '$'),
        marked.len() > 0,
        marked[0] == '$',
    ensures
        gated(done, lead + marked, major, minor) == match leading_gate(marked) {
            None => None,
            Some(g) => if g.blank_width > 0 && meets(g, major, minor) {
                gated(
                    done + lead + blanks(g.blank_width as nat),
                    behind(marked, g.blank_width as nat),
                    major,
                    minor,
                )
            } else {
                gated(without_last_line(done + lead), behind_line(marked), major, minor)
            },
        },
{
    let s = lead + marked;
    let at = lead.len() as int;
    assert forall|i: int| 0 <= i < at implies #[trigger] s[i] != '$' by {
        assert(lead[i] != '$');
    }
    assert(s[at] == '$');
    lemma_position_is(s, '$', at);
    assert(done + s.take(at) =~= done + lead);
    assert(s.skip(at) =~= marked);
}

proof fn lemma_line_dropped(done: Seq<char>, lead: Seq<char>)
    requires
        done.len() == 0 || done.last() == '\n',
        text::lacks(lead, '\n'),
    ensures
        without_last_line(done + lead) == done,
{
    let before = done + lead;
    lemma_last_position(before, '\n');
    lemma_last_position_bound(before, '\n');
    let p = text::last_position(before, '\n');
    assert forall|i: int| done.len() <= i < before.len() implies #[trigger] before[i] != '\n' by {
        assert(before[i] == lead[i - done.len()]);
    }
    if done.len() > 0 {
        assert(before[done.len() - 1] == done.last());
    }
    assert(p == done.len() - 1);
    assert(without_last_line(before) =~= done);
}

proof fn lemma_marker_blanked(
    done: Seq<char>,
    lead: Seq<char>,
    m: Seq<char>,
    after: Seq<char>,
    w: nat,
    major: u32,
    minor: u32,
)
    requires
        0 < w < m.len(),
        forall|i: int| 1 <= i < m.len() ==> #[trigger] m[i] != '$',
    ensures
        gated(done + lead + blanks(w), behind(m + after, w), major, minor) == gated(
            done + blanked(lead + m, lead.len() as int, w as int),
            after,
            major,
            minor,
        ),
{
    let kept = m.skip(w as int);
    assert(behind(m + after, w) =~= kept + after);
    assert forall|i: int| 0 <= i < kept.len() implies #[trigger] kept[i] != '$' by {
        assert(kept[i] == m[i + w]);
    }
    law_plain_line_is_kept(done + lead + blanks(w), kept, after, major, minor);
    assert(done + lead + blanks(w) + kept =~= done + blanked(
        lead + m,
        lead.len() as int,
        w as int,
    ));
}

proof fn lemma_marker_dropped(done: Seq<char>, lead: Seq<char>, m: Seq<char>, after: Seq<char>)
    requires
        done.len() == 0 || done.last() == '\n',
        text::lacks(lead, '\n'),
        m.len() > 0,
        m.last() == '\n',
        forall|i: int| 0 <= i < m.len() - 1 ==> #[trigger] m[i] != '\n',
    ensures
        without_last_line(done + lead) == done,
        behind_line(m + after) == after,
{
    let marked = m + after;
    lemma_line_dropped(done, lead);
    let end = m.len() - 1;
    assert(marked[end] == '\n');
    assert forall|i: int| 0 <= i < end implies #[trigger] marked[i] != '\n' by {
        assert(marked[i] == m[i]);
    }
    lemma_position_is(marked, '\n', end);
    assert(behind_line(marked) =~= after);
}

/// A line with a marker of one version vanishes whole on a controller older
/// than that version, and nothing else does. On a newer one it stays, with five
/// blanks in place of the marker.
pub proof fn law_marked_line_needs_its_version(
    done: Seq<char>,
    lead: Seq<char>,
    needed: (u32, u32),
    tail: Seq<char>,
    after: Seq<char>,
    major: u32,
    minor: u32,
)
    requires
        done.len() == 0 || done.last() == '\n',
        text::lacks(lead, '$') && text::lacks(lead, '\n'),
        text::lacks(tail, '$') && text::lacks(tail, '\n') && text::lacks(tail, '|'),
        needed != (5u32, 23u32),
    ensures
        ({
            let line = lead + marked_rest(needed, tail);
            gated(done, line + after, major, minor) == if version_rank(major, minor)
                >= version_rank(needed.0, needed.1) {
                gated(done + blanked(line, lead.len() as int, 5), after, major, minor)
            } else {
                gated(done, after, major, minor)
            }
        }),
{
    let v = version_text(needed.0, needed.1);
    let m = marked_rest(needed, tail);
    let line = lead + m;
    let marked = m + after;
    assert(line + after =~= lead + marked);
    lemma_marked_rest(needed, tail);
    lemma_marked_line(done, lead, marked, major, minor);
    let body = marked.skip(1);
    assert(body.take(v.len() as int) =~= v) by {
        assert forall|i: int| 0 <= i < v.len() implies body[i] == #[trigger] v[i] by {
            assert(body[i] == m[i + 1]);
        }
    }
    assert(body[v.len() as int] == ' ');
    lemma_version_leads(body, needed.0, needed.1);
    assert(body[4] == m[5]);
    assert(!has_bar(body));
    let g = Gate { major: needed.0, minor: needed.1, extra: None, blank_width: 5 };
    assert(leading_gate(marked) == Some(g));
    law_marker_is_a_minimum_version(g, major, minor);
    lemma_marker_blanked(done, lead, m, after, 5, major, minor);
    lemma_marker_dropped(done, lead, m, after);
}

/// The marker `$M.mm|M.mm`, the text behind it, and the end of the line.
pub open spec fn twice_marked_rest(
    first: (u32, u32),
    second: (u32, u32),
    tail: Seq<char>,
) -> Seq<char> {
    seq!['$'] + version_text(first.0, first.1) + seq!['|'] + version_text(second.0, second.1)
        + seq![' '] + tail + seq!['\n']
}

proof fn lemma_short_version(v: (u32, u32))
    requires
        v.0 < 10,
        10 <= v.1 < 100,
    ensures
        version_text(v.0, v.1).len() == 4,
        forall|i: int|
            0 <= i < 4 ==> '.' <= #[trigger] version_text(v.0, v.1)[i] && version_text(v.0, v.1)[i]
                <= '9',
{
    let a = text::decimal(v.0 as nat);
    let b = text::decimal(v.1 as nat);
    text::lemma_decimal_is_digits(v.0 as nat);
    text::lemma_decimal_is_digits(v.1 as nat);
    reveal_with_fuel(text::decimal, 3);
    assert(a.len() == 1);
    assert(b.len() == 2);
    assert(text::is_digit(a[0]) && text::is_digit(b[0]) && text::is_digit(b[1]));
    let t = version_text(v.0, v.1);
    assert(t[0] == a[0] && t[1] == '.' && t[2] == b[0] && t[3] == b[1]);
}

proof fn lemma_twice_marked_rest(first: (u32, u32), second: (u32, u32), tail: Seq<char>)
    requires
        first.0 < 10 && 10 <= first.1 < 100,
        second.0 < 10 && 10 <= second.1 < 100,
        text::lacks(tail, '$') && text::lacks(tail, '\n'),
    ensures
        ({
            let m = twice_marked_rest(first, second, tail);
            let v = version_text(first.0, first.1);
            let w = version_text(second.0, second.1);
            &&& v.len() == 4 && w.len() == 4
            &&& m.len() == 12 + tail.len()
            &&& m[0] == '$' && m[5] == '|' && m[10] == ' ' && m.last() == '\n'
            &&& m.subrange(1, 5) == v && m.subrange(6, 10) == w
            &&& forall|i: int| 1 <= i < 5 ==> #[trigger] m[i] <= '9'
            &&& forall|i: int| 1 <= i < m.len() ==> #[trigger] m[i] != '$'
            &&& forall|i: int| 0 <= i < m.len() - 1 ==> #[trigger] m[i] != '\n'
        }),
{
    let m = twice_marked_rest(first, second, tail);
    let v = version_text(first.0, first.1);
    let w = version_text(second.0, second.1);
    lemma_short_version(first);
    lemma_short_version(second);
    assert(m.subrange(1, 5) =~= v);
    assert(m.subrange(6, 10) =~= w);
    assert forall|i: int| 1 <= i < m.len() implies #[trigger] m[i] != '$' && (i < m.len() - 1
        ==> m[i] != '\n') && (i < 5 ==> m[i] <= '9') by {
        if i < 5 {
            assert(m[i] == v[i - 1]);
        } else if 6 <= i < 10 {
            assert(m[i] == w[i - 6]);
        } else if 11 <= i < m.len() - 1 {
            assert(m[i] == tail[i - 11]);
        }
    }
}

/// A line with a marker of two versions stays on a controller that the first
/// serves or the second does, with ten blanks in place of the marker, and
/// vanishes whole on any other.
pub proof fn law_twice_marked_line_needs_one_version(
    done: Seq<char>,
    lead: Seq<char>,
    first: (u32, u32),
    second: (u32, u32),
    tail: Seq<char>,
    after: Seq<char>,
    major: u32,
    minor: u32,
)
    requires
        done.len() == 0 || done.last() == '\n',
        text::lacks(lead, '$') && text::lacks(lead, '\n'),
        text::lacks(tail, '$') && text::lacks(tail, '\n'),
        first.0 < 10 && 10 <= first.1 < 100,
        second.0 < 10 && 10 <= second.1 < 100,
        first != (5u32, 23u32),
    ensures
        ({
            let line = lead + twice_marked_rest(first, second, tail);
            gated(done, line + after, major, minor) == if version_rank(major, minor)
                >= version_rank(first.0, first.1) || (major == second.0 && minor >= second.1) {
                gated(done + blanked(line, lead.len() as int, 10), after, major, minor)
            } else {
                gated(done, after, major, minor)
            }
        }),
{
    let v = version_text(first.0, first.1);
    let w = version_text(second.0, second.1);
    let m = twice_marked_rest(first, second, tail);
    let line = lead + m;
    let marked = m + after;
    assert(line + after =~= lead + marked);
    lemma_twice_marked_rest(first, second, tail);
    lemma_marked_line(done, lead, marked, major, minor);
    let body = marked.skip(1);
    assert(body.take(4) =~= m.subrange(1, 5));
    assert(body[4] == m[5]);
    lemma_version_leads(body, first.0, first.1);
    assert forall|i: int| 0 <= i < 4 implies (#[trigger] body[i] as u32) < 0x80 by {
        assert(body[i] == m[i + 1]);
    }
    assert(has_bar(body));
    let more = body.skip(5);
    assert(more.take(4) =~= m.subrange(6, 10));
    assert(more[4] == m[10]);
    lemma_version_leads(more, second.0, second.1);
    let g = Gate { major: first.0, minor: first.1, extra: Some(second), blank_width: 10 };
    assert(leading_gate(marked) == Some(g));
    law_second_version_also_serves(g, second, major, minor);
    lemma_marker_blanked(done, lead, m, after, 10, major, minor);
    lemma_marker_dropped(done, lead, m, after);
}

/// Text put in behind an anchor goes directly behind its first occurrence, and
/// the script around it stays as it was.
pub proof fn law_injection_goes_behind_its_anchor(
    before: Seq<char>,
    anchor: Seq<char>,
    after: Seq<char>,
    inject: Seq<char>,
)
    requires
        forall|i: int|
            0 <= i < before.len() ==> !#[trigger] text::stands_at(
                before + anchor + after,
                anchor,
                i,
            ),
    ensures
        injected_one(before + anchor + after, anchor, inject) == before + anchor + inject + after,
{
    let s = before + anchor + after;
    let at = before.len() as int;
    assert(s.subrange(at, at + anchor.len()) =~= anchor);
    assert(text::stands_at(s, anchor, at));
    assert(text::first_at(s, anchor, at));
    lemma_first_is_chosen(s, anchor, at);
    assert(s.take(at + anchor.len()) =~= before + anchor);
    assert(s.skip(at + anchor.len()) =~= after);
}

/// A wrapped line stands behind one tab, and the lines behind it are wrapped as
/// they would be without it.
pub proof fn law_each_line_is_indented(line: Seq<char>, rest: Seq<char>)
    requires
        text::lacks(line, '\n'),
    ensures
        indented(line + seq!['\n'] + rest) == seq!['\t'] + (if line.len() > 0 && line.last()
            == '\r' {
            line.drop_last()
        } else {
            line
        }) + seq!['\n'] + indented(rest),
        line.len() > 0 ==> indented(line) == seq!['\t'] + line + seq!['\n'],
{
    let s = line + seq!['\n'] + rest;
    let at = line.len() as int;
    assert(s[at] == '\n');
    assert forall|i: int| 0 <= i < at implies #[trigger] s[i] != '\n' by {
        assert(line[i] != '\n');
    }
    lemma_position_is(s, '\n', at);
    assert(s.take(at) =~= line);
    assert(s.skip(at + 1) =~= rest);
    text::lemma_position(line, '\n');
    if text::position(line, '\n') < line.len() {
        assert(line[text::position(line, '\n') as int] != '\n');
    }
}

/// Injections are made in turn, each into what the ones before it left.
pub proof fn law_injections_are_made_in_turn(
    s: Seq<char>,
    pairs: Seq<(Seq<char>, Seq<char>)>,
    search: Seq<char>,
    text_in: Seq<char>,
)
    ensures
        injected(s, Seq::empty(), 0) == s,
        injected(s, pairs.push((search, text_in)), pairs.len() + 1) == injected_one(
            injected(s, pairs, pairs.len()),
            search,
            text_in,
        ),
        !text::occurs(s, search) ==> injected_one(s, search, text_in) == s,
{
    lemma_injected_prefix(s, pairs, pairs.push((search, text_in)), pairs.len());
}

proof fn lemma_injected_prefix(
    s: Seq<char>,
    a: Seq<(Seq<char>, Seq<char>)>,
    b: Seq<(Seq<char>, Seq<char>)>,
    n: nat,
)
    requires
        n <= a.len(),
        n <= b.len(),
        forall|i: int| 0 <= i < n ==> #[trigger] a[i] == b[i],
    ensures
        injected(s, a, n) == injected(s, b, n),
    decreases n,
{
    if n > 0 {
        lemma_injected_prefix(s, a, b, (n - 1) as nat);
        assert(a[n - 1] == b[n - 1]);
    }
}

} // verus!
