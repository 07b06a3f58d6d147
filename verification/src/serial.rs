//! The serial-console commander: protocol framing over an asynchronous,
//! lossy-framed byte channel.
//!
//! The guest TTY is a byte stream with no line alignment.  The commander
//! accumulates received text and scans it for a pattern: a login prompt,
//! a shell prompt, the echo of a command it sent, or the end-of-command
//! sentinel.  The sentinel terminates a drain only at the start of a
//! line, because the echo of the command that mentions it would
//! otherwise match.  The returned output is everything before the match,
//! with the echoed command line stripped and the trailing newline
//! removed.

use vstd::prelude::*;
use vstd::string::*;

verus! {

/// The sentinel injected into the guest shell's prompt command: its
/// appearance at the start of a line delimits a command's output.
pub open spec fn eoc() -> Seq<char> {
    "__FALCON_EXEC_FINISHED__"@
}

/// The sentinel, as text to embed into commands.
pub fn eoc_detector() -> (r: &'static str)
    ensures
        r@ == eoc(),
{
    "__FALCON_EXEC_FINISHED__"
}

/// The state of a serial commander.
pub enum State {
    /// Not yet connected.
    Empty,
    /// Connection in progress.
    Connecting,
    /// Connected, waiting for a login prompt.
    WaitingForPrompt,
    /// Logged in, at an idle shell.
    Ready,
    /// A command is outstanding.
    Executing,
}

/// A pattern the commander waits for in the accumulated stream.
#[derive(Debug, Clone)]
pub enum Pattern {
    /// The literal text, anywhere.
    Literal(String),
    /// A shell prompt: `root@`, then at least one character that is not a
    /// newline, then `#`.
    Shell,
    /// Either the literal `Password:` or a shell prompt.
    PasswordOrShell,
    /// The echo of a sent command: the command text, then any characters
    /// that are not newlines, then a newline.
    Echo(String),
    /// The end-of-command sentinel at the start of a line.
    Sentinel,
}

/// `pat` occurs in `s` at position `i`.
pub open spec fn contains_at(s: Seq<char>, i: int, pat: Seq<char>) -> bool {
    &&& 0 <= i
    &&& i + pat.len() <= s.len()
    &&& s.subrange(i, i + pat.len()) == pat
}

/// A shell prompt starts at position `i`: `root@`, one or more
/// non-newline characters, then `#`.
pub open spec fn shell_prompt_at(s: Seq<char>, i: int) -> bool {
    &&& contains_at(s, i, "root@"@)
    &&& exists|j: int|
        i + 6 <= j < s.len() && #[trigger] s[j] == '#' && (forall|m: int|
            i + 5 <= m < j ==> s[m] != '\n')
}

/// The echo of `cmd` starts at position `i`: the command text followed,
/// possibly after more characters, by a newline.
pub open spec fn echo_at(s: Seq<char>, i: int, cmd: Seq<char>) -> bool {
    &&& contains_at(s, i, cmd)
    &&& exists|j: int| i + cmd.len() <= j < s.len() && #[trigger] s[j] == '\n'
}

/// The sentinel starts at position `i` and `i` is the start of a line.
pub open spec fn sentinel_at(s: Seq<char>, i: int) -> bool {
    &&& contains_at(s, i, eoc())
    &&& (i == 0 || s[i - 1] == '\n' || s[i - 1] == '\r')
}

/// The pattern `p` matches in `s` starting at position `i`.
pub open spec fn pat_match_at(p: Pattern, s: Seq<char>, i: int) -> bool {
    match p {
        Pattern::Literal(t) => contains_at(s, i, t@),
        Pattern::Shell => shell_prompt_at(s, i),
        Pattern::PasswordOrShell => contains_at(s, i, "Password:"@) || shell_prompt_at(s, i),
        Pattern::Echo(cmd) => echo_at(s, i, cmd@),
        Pattern::Sentinel => sentinel_at(s, i),
    }
}

/// A pattern whose text parts are nonempty.
pub open spec fn pat_wf(p: Pattern) -> bool {
    match p {
        Pattern::Literal(t) => t@.len() > 0,
        Pattern::Echo(cmd) => cmd@.len() > 0,
        _ => true,
    }
}

/// Check whether `pat` occurs in `s` at position `i`.
pub(crate) fn lit_at(s: &str, i: usize, pat: &str) -> (r: bool)
    requires
        i <= s@.len(),
    ensures
        r == contains_at(s@, i as int, pat@),
{
    let n = s.unicode_len();
    let m = pat.unicode_len();
    if m > n - i {
        return false;
    }
    let mut k: usize = 0;
    while k < m
        invariant
            0 <= k <= m,
            i + m <= n,
            n == s@.len(),
            m == pat@.len(),
            forall|t: int| 0 <= t < k ==> s@[i + t] == pat@[t],
        decreases m - k,
    {
        if s.get_char(i + k) != pat.get_char(k) {
            assert(s@.subrange(i as int, i + pat@.len())[k as int] != pat@[k as int]);
            return false;
        }
        k = k + 1;
    }
    proof {
        assert(s@.subrange(i as int, i + pat@.len()) =~= pat@);
    }
    true
}

/// Check whether a shell prompt starts at position `i` of `s`.
fn shell_at(s: &str, i: usize) -> (r: bool)
    requires
        i <= s@.len(),
    ensures
        r == shell_prompt_at(s@, i as int),
{
    if !lit_at(s, i, "root@") {
        return false;
    }
    proof {
        reveal_strlit("root@");
    }
    let n = s.unicode_len();
    let mut j: usize = i + 5;
    while j < n
        invariant
            i + 5 <= j <= n,
            n == s@.len(),
            contains_at(s@, i as int, "root@"@),
            "root@"@.len() == 5,
            forall|m: int| i + 5 <= m < j ==> s@[m] != '\n',
            forall|m: int| i + 6 <= m < j ==> s@[m] != '#',
        decreases n - j,
    {
        let c = s.get_char(j);
        if c == '\n' {
            return false;
        }
        if c == '#' && j >= i + 6 {
            return true;
        }
        j = j + 1;
    }
    false
}

/// Check whether a newline occurs in `s` at or after position `i`.
fn newline_from(s: &str, i: usize) -> (r: bool)
    requires
        i <= s@.len(),
    ensures
        r == exists|j: int| i <= j < s@.len() && #[trigger] s@[j] == '\n',
{
    let n = s.unicode_len();
    let mut j: usize = i;
    while j < n
        invariant
            i <= j <= n,
            n == s@.len(),
            forall|m: int| i <= m < j ==> s@[m] != '\n',
        decreases n - j,
    {
        if s.get_char(j) == '\n' {
            return true;
        }
        j = j + 1;
    }
    false
}

/// Check whether pattern `p` matches in `s` at position `i`.
fn match_at(s: &str, i: usize, p: &Pattern) -> (r: bool)
    requires
        i <= s@.len(),
    ensures
        r == pat_match_at(*p, s@, i as int),
{
    match p {
        Pattern::Literal(t) => lit_at(s, i, t.as_str()),
        Pattern::Shell => shell_at(s, i),
        Pattern::PasswordOrShell => {
            if lit_at(s, i, "Password:") {
                true
            } else {
                shell_at(s, i)
            }
        },
        Pattern::Echo(cmd) => {
            if !lit_at(s, i, cmd.as_str()) {
                false
            } else {
                let n = s.unicode_len();
                let clen = cmd.unicode_len();
                assert(i + clen <= n);
                newline_from(s, i + clen)
            }
        },
        Pattern::Sentinel => {
            if !lit_at(s, i, "__FALCON_EXEC_FINISHED__") {
                false
            } else {
                proof {
                    assert("__FALCON_EXEC_FINISHED__"@ == eoc());
                }
                if i == 0 {
                    true
                } else {
                    let c = s.get_char(i - 1);
                    c == '\n' || c == '\r'
                }
            }
        },
    }
}

/// Find the leftmost match of `p` in `s`: the least position where the
/// pattern matches, or nothing when it matches nowhere.
pub fn find_match(s: &str, p: &Pattern) -> (r: Option<usize>)
    requires
        pat_wf(*p),
    ensures
        match r {
            Some(i) => pat_match_at(*p, s@, i as int) && (forall|j: int|
                0 <= j < i ==> !pat_match_at(*p, s@, j)),
            None => forall|j: int| !pat_match_at(*p, s@, j),
        },
{
    let n = s.unicode_len();
    let mut i: usize = 0;
    while i < n
        invariant
            0 <= i <= n,
            n == s@.len(),
            pat_wf(*p),
            forall|j: int| 0 <= j < i ==> !pat_match_at(*p, s@, j),
        decreases n - i,
    {
        if match_at(s, i, p) {
            return Some(i);
        }
        i = i + 1;
    }
    proof {
        reveal_strlit("root@");
        reveal_strlit("Password:");
        reveal_strlit("__FALCON_EXEC_FINISHED__");
        assert forall|j: int| true implies !pat_match_at(*p, s@, j) by {
            if 0 <= j < n {
            } else {
                assert("root@"@.len() == 5);
                assert("Password:"@.len() == 9);
                assert(eoc().len() == 24);
            }
        }
    }
    None
}

/// The position of the first newline in `s`, or its length when there is
/// none.
pub open spec fn find_nl(s: Seq<char>) -> int
    decreases s.len(),
{
    if s.len() == 0 {
        0
    } else if s[0] == '\n' {
        0
    } else {
        1 + find_nl(s.skip(1))
    }
}

/// `find_nl` is determined by its characterization: the least position
/// holding a newline, or the length.
proof fn lemma_find_nl_char(s: Seq<char>, k: int)
    requires
        0 <= k <= s.len(),
        k < s.len() ==> s[k] == '\n',
        forall|m: int| 0 <= m < k ==> s[m] != '\n',
    ensures
        find_nl(s) == k,
    decreases s.len(),
{
    if s.len() == 0 {
    } else if s[0] == '\n' {
        assert(k == 0);
    } else {
        assert(k >= 1);
        let t = s.skip(1);
        assert forall|m: int| 0 <= m < k - 1 implies t[m] != '\n' by {
            assert(t[m] == s[m + 1]);
        }
        if k - 1 < t.len() {
            assert(t[k - 1] == s[k]);
        }
        lemma_find_nl_char(t, k - 1);
    }
}

/// With a newline at `k` and none before, the first newline is at `k`.
pub proof fn lemma_find_nl_at(s: Seq<char>, k: int)
    requires
        0 <= k < s.len(),
        s[k] == '\n',
        forall|m: int| 0 <= m < k ==> s[m] != '\n',
    ensures
        find_nl(s) == k,
{
    lemma_find_nl_char(s, k);
}

/// With no newline at all, the first-newline position is the length.
pub proof fn lemma_find_nl_full(s: Seq<char>)
    requires
        forall|m: int| 0 <= m < s.len() ==> s[m] != '\n',
    ensures
        find_nl(s) == s.len(),
{
    lemma_find_nl_char(s, s.len() as int);
}

/// The position of the first newline of `s`, or its length.
pub fn first_newline(s: &str) -> (r: usize)
    ensures
        r == find_nl(s@),
        r <= s@.len(),
        r < s@.len() ==> s@[r as int] == '\n',
        forall|m: int| 0 <= m < r ==> s@[m] != '\n',
{
    let n = s.unicode_len();
    let mut j: usize = 0;
    while j < n
        invariant
            0 <= j <= n,
            n == s@.len(),
            forall|m: int| 0 <= m < j ==> s@[m] != '\n',
        decreases n - j,
    {
        if s.get_char(j) == '\n' {
            proof {
                lemma_find_nl_char(s@, j as int);
            }
            return j;
        }
        j = j + 1;
    }
    proof {
        lemma_find_nl_char(s@, n as int);
    }
    n
}

/// The first-newline position lies within the text.
proof fn lemma_find_nl_bounds(s: Seq<char>)
    ensures
        0 <= find_nl(s) <= s.len(),
    decreases s.len(),
{
    if s.len() > 0 && s[0] != '\n' {
        lemma_find_nl_bounds(s.skip(1));
    }
}

/// A line with one trailing carriage return removed.
pub open spec fn strip_tail_cr(l: Seq<char>) -> Seq<char> {
    if l.len() > 0 && l.last() == '\r' {
        l.drop_last()
    } else {
        l
    }
}

/// The lines of `s`: split at newlines, each terminated line with one
/// trailing carriage return removed, and no final empty line when `s`
/// ends with a newline.
pub open spec fn spec_lines(s: Seq<char>) -> Seq<Seq<char>>
    decreases s.len(),
    via spec_lines_decreases
{
    if s.len() == 0 {
        Seq::empty()
    } else {
        let k = find_nl(s);
        if k == s.len() {
            seq![s]
        } else {
            seq![strip_tail_cr(s.subrange(0, k))] + spec_lines(s.skip(k + 1))
        }
    }
}

#[via_fn]
proof fn spec_lines_decreases(s: Seq<char>) {
    lemma_find_nl_bounds(s);
}

/// The lines joined by single newlines.
pub open spec fn join_nl(ls: Seq<Seq<char>>) -> Seq<char>
    decreases ls.len(),
{
    if ls.len() == 0 {
        Seq::empty()
    } else if ls.len() == 1 {
        ls[0]
    } else {
        ls[0] + seq!['\n'] + join_nl(ls.skip(1))
    }
}

/// A command's output as returned to the caller: the drained text with
/// the first line (the echoed command) removed, the remaining lines
/// joined by newlines, and no trailing newline.
pub open spec fn spec_strip_output(s: Seq<char>) -> Seq<char> {
    let ls = spec_lines(s);
    if ls.len() == 0 {
        Seq::empty()
    } else {
        join_nl(ls.skip(1))
    }
}

/// Join the lines of `s` by single newlines.
fn join_lines(s: &str) -> (r: String)
    ensures
        r@ == join_nl(spec_lines(s@)),
    decreases s@.len(),
{
    let n = s.unicode_len();
    if n == 0 {
        proof {
            reveal_strlit("");
            assert(""@ =~= join_nl(spec_lines(s@)));
        }
        return "".to_owned();
    }
    let f = first_newline(s);
    if f == n {
        proof {
            assert(spec_lines(s@) == seq![s@]);
        }
        return s.to_owned();
    }
    let line_end: usize = if f > 0 && s.get_char(f - 1) == '\r' {
        f - 1
    } else {
        f
    };
    let line = s.substring_char(0, line_end);
    let rest = s.substring_char(f + 1, n);
    proof {
        assert(line@ =~= strip_tail_cr(s@.subrange(0, f as int)));
        assert(rest@ =~= s@.skip(f as int + 1));
        assert(spec_lines(s@) == seq![strip_tail_cr(s@.subrange(0, f as int))] + spec_lines(
            s@.skip(f as int + 1),
        ));
    }
    if rest.unicode_len() == 0 {
        proof {
            assert(spec_lines(rest@).len() == 0);
            assert(spec_lines(s@) =~= seq![line@]);
        }
        line.to_owned()
    } else {
        let tail = join_lines(rest);
        let mut out = line.to_owned();
        out.append("\n");
        out.append(tail.as_str());
        proof {
            reveal_strlit("\n");
            assert("\n"@ =~= seq!['\n']);
            assert(spec_lines(rest@).len() >= 1);
            let ls = spec_lines(s@);
            assert(ls.len() >= 2);
            assert(ls[0] == line@);
            assert(ls.skip(1) =~= spec_lines(rest@));
            assert(out@ =~= join_nl(ls));
        }
        out
    }
}

/// Strip a drained command response: drop the first line (the echoed
/// command), join the remaining lines by newlines, with no trailing
/// newline.
pub fn strip_exec_output(s: &str) -> (r: String)
    ensures
        r@ == spec_strip_output(s@),
{
    let n = s.unicode_len();
    if n == 0 {
        proof {
            reveal_strlit("");
            assert(""@ =~= spec_strip_output(s@));
        }
        return "".to_owned();
    }
    let f = first_newline(s);
    if f == n {
        proof {
            reveal_strlit("");
            assert(spec_lines(s@) == seq![s@]);
            assert(spec_lines(s@).skip(1).len() == 0);
            assert(""@ =~= spec_strip_output(s@));
        }
        return "".to_owned();
    }
    let rest = s.substring_char(f + 1, n);
    proof {
        assert(rest@ =~= s@.skip(f as int + 1));
        assert(spec_lines(s@) == seq![strip_tail_cr(s@.subrange(0, f as int))] + spec_lines(
            s@.skip(f as int + 1),
        ));
        assert(spec_lines(s@).skip(1) =~= spec_lines(rest@));
    }
    join_lines(rest)
}

/// A serial commander bound to one hypervisor instance: it logs into the
/// guest shell over the instance's serial WebSocket and executes commands
/// delimited by the sentinel.  The driver owns the socket; this state
/// machine owns the accumulated text and the protocol.
pub struct SerialCommander {
    /// The control address of the instance, as `host:port` text.
    pub addr: String,
    /// The instance identifier.
    pub instance: String,
    /// The node name, for error messages.
    pub name: String,
    /// Where the commander stands in the session.
    pub state: State,
    /// Text received since the last match.
    pub buf: String,
}

impl SerialCommander {
    /// A fresh commander for the given instance.
    pub fn new(addr: String, instance: String, name: String) -> (r: SerialCommander)
        ensures
            r.addr@ == addr@,
            r.instance@ == instance@,
            r.name@ == name@,
            r.state is Empty,
            r.buf@.len() == 0,
    {
        SerialCommander { addr, instance, name, state: State::Empty, buf: String::new() }
    }

    /// Feed received text into the commander and scan for `p`.  On a
    /// match, everything before the leftmost match is returned and the
    /// buffer is discarded, as the drain consumes the stream; otherwise
    /// the text is retained for the next read.
    pub fn push_serial_data(&mut self, p: &Pattern, chunk: &str) -> (r: Option<String>)
        requires
            pat_wf(*p),
        ensures
            match r {
                Some(out) => {
                    &&& exists|i: int|
                        {
                            &&& #[trigger] pat_match_at(*p, old(self).buf@ + chunk@, i)
                            &&& forall|j: int|
                                0 <= j < i ==> !pat_match_at(*p, old(self).buf@ + chunk@, j)
                            &&& out@ == (old(self).buf@ + chunk@).subrange(0, i)
                        }
                    &&& final(self).buf@.len() == 0
                },
                None => {
                    &&& final(self).buf@ == old(self).buf@ + chunk@
                    &&& forall|j: int| !pat_match_at(*p, old(self).buf@ + chunk@, j)
                },
            },
            final(self).addr == old(self).addr,
            final(self).instance == old(self).instance,
            final(self).name == old(self).name,
            final(self).state == old(self).state,
    {
        self.buf.append(chunk);
        let m = find_match(self.buf.as_str(), p);
        match m {
            Some(i) => {
                let out = self.buf.as_str().substring_char(0, i).to_owned();
                self.buf = String::new();
                Some(out)
            },
            None => None,
        }
    }
}

impl SerialCommander {
    /// Discard any accumulated text, as after a failed drain: partial
    /// data read before an error is never reused.
    pub fn discard(&mut self)
        ensures
            final(self).buf@.len() == 0,
            final(self).addr == old(self).addr,
            final(self).instance == old(self).instance,
            final(self).name == old(self).name,
            final(self).state == old(self).state,
    {
        self.buf = String::new();
    }
}

/// The login protocol, as pairs of text to send and the pattern to await
/// before the next step: provoke a login prompt (two returns, when asked
/// to), log in as root with an empty password, set a dumb terminal in raw
/// mode, then install the prompt command whose sentinel delimits command
/// output.  The last step awaits the sentinel at a line start only,
/// because the echoed command itself mentions it.
pub fn login_script(coax_prompt: bool) -> (r: Vec<(String, Pattern)>)
    ensures
        r@.len() == 6,
        r@[0].0@ == if coax_prompt {
            "\r\r"@
        } else {
            ""@
        },
        (r@[0].1 matches Pattern::Literal(t) && t@ == "login:"@),
        r@[1].0@ == "root\r"@,
        r@[1].1 is PasswordOrShell,
        r@[2].0@ == "\r"@,
        r@[2].1 is Shell,
        r@[3].0@ == "export TERM=dumb\r"@,
        (r@[3].1 matches Pattern::Echo(c) && c@ == "export TERM=dumb"@),
        r@[4].0@ == "stty raw\r"@,
        (r@[4].1 matches Pattern::Echo(c) && c@ == "stty raw"@),
        r@[5].0@ == "PROMPT_COMMAND='echo __FALCON_EXEC_FINISHED__'\r"@,
        r@[5].1 is Sentinel,
{
    let mut r: Vec<(String, Pattern)> = Vec::new();
    let first: String = if coax_prompt {
        "\r\r".to_owned()
    } else {
        "".to_owned()
    };
    r.push((first, Pattern::Literal("login:".to_owned())));
    r.push(("root\r".to_owned(), Pattern::PasswordOrShell));
    r.push(("\r".to_owned(), Pattern::Shell));
    r.push(("export TERM=dumb\r".to_owned(), Pattern::Echo("export TERM=dumb".to_owned())));
    r.push(("stty raw\r".to_owned(), Pattern::Echo("stty raw".to_owned())));
    r.push(("PROMPT_COMMAND='echo __FALCON_EXEC_FINISHED__'\r".to_owned(), Pattern::Sentinel));
    r
}

/// The logout step: send `logout` and await the next login prompt.
pub fn logout_script() -> (r: (String, Pattern))
    ensures
        r.0@ == "logout\r"@,
        (r.1 matches Pattern::Literal(t) && t@ == "login:"@),
{
    ("logout\r".to_owned(), Pattern::Literal("login:".to_owned()))
}

/// The byte that ends an interactive console session.
pub open spec fn quit_byte() -> u8 {
    0x11
}

/// Split one read of interactive console input at the quit byte:
/// everything before the first occurrence is forwarded to the guest,
/// and the flag says whether the session ends here.
pub fn console_input_split(input: &Vec<u8>) -> (r: (Vec<u8>, bool))
    ensures
        r.1 == exists|i: int| 0 <= i < input@.len() && input@[i] == quit_byte(),
        r.1 ==> exists|i: int|
            {
                &&& 0 <= i < input@.len()
                &&& #[trigger] input@[i] == quit_byte()
                &&& (forall|j: int| 0 <= j < i ==> input@[j] != quit_byte())
                &&& r.0@ == input@.subrange(0, i)
            },
        !r.1 ==> r.0@ == input@,
{
    let mut out: Vec<u8> = Vec::new();
    let mut i: usize = 0;
    while i < input.len()
        invariant
            0 <= i <= input@.len(),
            out@ == input@.subrange(0, i as int),
            forall|j: int| 0 <= j < i ==> input@[j] != quit_byte(),
        decreases input@.len() - i,
    {
        let b = input[i];
        if b == 0x11 {
            return (out, true);
        }
        out.push(b);
        proof {
            assert(out@ =~= input@.subrange(0, i as int + 1));
        }
        i = i + 1;
    }
    proof {
        assert(out@ =~= input@);
    }
    (out, false)
}

/// The bytes sent to execute `cmd`: the command text and a return.
pub fn command_line(cmd: &str) -> (r: String)
    ensures
        r@ == cmd@ + "\r"@,
{
    let mut s = cmd.to_owned();
    s.append("\r");
    s
}

} // verus!
