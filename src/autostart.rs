//! The text of the per-platform autostart entries: a macOS launch agent and
//! a Linux desktop entry.
use vstd::prelude::*;
use vstd::string::{StrSliceExecFns, StringExecFns};

use crate::text::push_char;

verus! {

/// The application's display name.
pub const APP_NAME: &'static str = "EasyPassword";

/// The launch agent up to its program arguments.
pub const PLIST_HEAD: &'static str = "<?xml version=\"1.0\" encoding=\"UTF-8\"?>\n<!DOCTYPE plist PUBLIC \"-//Apple//DTD PLIST 1.0//EN\" \"http://www.apple.com/DTDs/PropertyList-1.0.dtd\">\n<plist version=\"1.0\">\n<dict>\n  <key>Label</key>\n  <string>com.easypassword.EasyPassword</string>\n  <key>RunAtLoad</key>\n  <true/>\n  <key>ProgramArguments</key>\n  <array>\n";

/// The launch agent after its program arguments.
pub const PLIST_TAIL: &'static str = "  </array>\n</dict>\n</plist>\n";

/// What opens one program argument of the launch agent.
pub const ARG_OPEN: &'static str = "    <string>";

/// What closes one program argument of the launch agent.
pub const ARG_CLOSE: &'static str = "</string>\n";

/// The desktop entry up to its command.
pub const DESKTOP_HEAD: &'static str = "[Desktop Entry]\nType=Application\nName=EasyPassword\nExec=";

/// The desktop entry after its command.
pub const DESKTOP_TAIL: &'static str = "\nTerminal=false\nX-GNOME-Autostart-enabled=true\n";

/// The XML escape of one character.
pub open spec fn xml_escape_char(c: char) -> Seq<char> {
    if c == '&' {
        seq!['&', 'a', 'm', 'p', ';']
    } else if c == '<' {
        seq!['&', 'l', 't', ';']
    } else if c == '>' {
        seq!['&', 'g', 't', ';']
    } else if c == '"' {
        seq!['&', 'q', 'u', 'o', 't', ';']
    } else if c == '\'' {
        seq!['&', 'a', 'p', 'o', 's', ';']
    } else {
        seq![c]
    }
}

/// Each character of `s` replaced by its XML escape.
pub open spec fn xml_escaped(s: Seq<char>) -> Seq<char>
    decreases s.len(),
{
    if s.len() == 0 {
        Seq::empty()
    } else {
        xml_escaped(s.drop_last()) + xml_escape_char(s.last())
    }
}

/// Each space of `s` preceded by a backslash.
pub open spec fn exec_escaped(s: Seq<char>) -> Seq<char>
    decreases s.len(),
{
    if s.len() == 0 {
        Seq::empty()
    } else {
        exec_escaped(s.drop_last()) + if s.last() == ' ' {
            seq!['\\', ' ']
        } else {
            seq![s.last()]
        }
    }
}

/// The program-argument entries of the launch agent, one per argument.
pub open spec fn plist_arguments(args: Seq<Seq<char>>) -> Seq<char>
    decreases args.len(),
{
    if args.len() == 0 {
        Seq::empty()
    } else {
        plist_arguments(args.drop_last()) + ARG_OPEN@ + xml_escaped(args.last()) + ARG_CLOSE@
    }
}

fn push_all(out: &mut String, chars: &Vec<char>)
    ensures
        final(out)@ == old(out)@ + chars@,
{
    let ghost cs = chars@;
    let mut i: usize = 0;
    while i < chars.len()
        invariant
            chars@ == cs,
            i <= cs.len(),
            out@ == old(out)@ + cs.take(i as int),
        decreases cs.len() - i,
    {
        push_char(out, chars[i]);
        assert(cs.take(i + 1) =~= cs.take(i as int).push(cs[i as int]));
        i = i + 1;
    }
    assert(cs.take(cs.len() as int) =~= cs);
}

/// `s` with `&`, `<`, `>`, `"` and `'` replaced by their XML entities.
pub fn xml_escape(s: &str) -> (r: String)
    ensures
        r@ == xml_escaped(s@),
{
    let n = s.unicode_len();
    let mut out = String::new();
    let mut i: usize = 0;
    while i < n
        invariant
            n == s@.len(),
            i <= n,
            out@ == xml_escaped(s@.take(i as int)),
        decreases n - i,
    {
        let c = s.get_char(i);
        let ghost before = out@;
        if c == '&' {
            push_all(&mut out, &vec!['&', 'a', 'm', 'p', ';']);
        } else if c == '<' {
            push_all(&mut out, &vec!['&', 'l', 't', ';']);
        } else if c == '>' {
            push_all(&mut out, &vec!['&', 'g', 't', ';']);
        } else if c == '"' {
            push_all(&mut out, &vec!['&', 'q', 'u', 'o', 't', ';']);
        } else if c == '\'' {
            push_all(&mut out, &vec!['&', 'a', 'p', 'o', 's', ';']);
        } else {
            push_char(&mut out, c);
            assert(out@ =~= before + seq![c]);
        }
        assert(s@.take(i + 1).drop_last() =~= s@.take(i as int));
        i = i + 1;
    }
    assert(s@.take(n as int) =~= s@);
    out
}

/// The launch agent that starts the given program arguments at login.
pub fn macos_launch_agent_plist(program_arguments: &[String]) -> (r: String)
    ensures
        r@ == PLIST_HEAD@ + plist_arguments(program_arguments@.map_values(|a: String| a@))
            + PLIST_TAIL@,
{
    let ghost args = program_arguments@.map_values(|a: String| a@);
    let mut plist = String::new();
    plist.append(PLIST_HEAD);
    let mut i: usize = 0;
    while i < program_arguments.len()
        invariant
            args == program_arguments@.map_values(|a: String| a@),
            i <= program_arguments@.len(),
            plist@ == PLIST_HEAD@ + plist_arguments(args.take(i as int)),
        decreases program_arguments@.len() - i,
    {
        plist.append(ARG_OPEN);
        let escaped = xml_escape(program_arguments[i].as_str());
        plist.append(escaped.as_str());
        plist.append(ARG_CLOSE);
        assert(args.take(i + 1).drop_last() =~= args.take(i as int));
        i = i + 1;
    }
    assert(args.take(program_arguments@.len() as int) =~= args);
    plist.append(PLIST_TAIL);
    plist
}

/// The executable path with each space escaped by a backslash, as the
/// `Exec` key of a desktop entry expects.
pub fn linux_escape_exec(path: &str) -> (r: String)
    ensures
        r@ == exec_escaped(path@),
{
    let n = path.unicode_len();
    let mut out = String::new();
    let mut i: usize = 0;
    while i < n
        invariant
            n == path@.len(),
            i <= n,
            out@ == exec_escaped(path@.take(i as int)),
        decreases n - i,
    {
        let c = path.get_char(i);
        let ghost before = out@;
        if c == ' ' {
            push_char(&mut out, '\\');
        }
        push_char(&mut out, c);
        assert(path@.take(i + 1).drop_last() =~= path@.take(i as int));
        assert(out@ =~= before + if c == ' ' {
            seq!['\\', ' ']
        } else {
            seq![c]
        });
        i = i + 1;
    }
    assert(path@.take(n as int) =~= path@);
    out
}

/// The desktop entry that starts the executable at login.
pub fn linux_desktop_entry(exe: &str) -> (r: String)
    ensures
        r@ == DESKTOP_HEAD@ + exec_escaped(exe@) + DESKTOP_TAIL@,
{
    let exec = linux_escape_exec(exe);
    let mut entry = String::new();
    entry.append(DESKTOP_HEAD);
    entry.append(exec.as_str());
    entry.append(DESKTOP_TAIL);
    entry
}

} // verus!
