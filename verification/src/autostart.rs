//! Start at login: what the registration says, on every platform that has one, and when it
//! is written or removed.
//!
//! Registration is per-user and carries [`FLAG`], which is the only way the process learns
//! it was started by the system rather than by the user, and so the only way it knows to
//! stay in the tray instead of opening a window.
//!
//! The user can overrule a managed install, and that is reported rather than fought: a
//! status can be `enabled: false` alongside `enforced: true`, and [`decide`] leaves that
//! state alone.
use vstd::prelude::*;
use vstd::string::*;

use crate::config::AppConfig;
use crate::text::{
    carriage_return_belongs_to_the_line_end, chars_of, control, first_at, hex, hex_text, is_control, joined, lemma_filter, lemma_filter_none,
    lemma_first_at, lemma_first_at_is, lemma_lines_hold_no_line_feed, lemma_lines_of_both,
    lemma_lines_of_lined, lemma_one_line, lemma_spread_push, lemma_spread_stays_in,
    lemma_trim_ignores_back, lemma_trim_ignores_front, lemma_trimmed, lemma_trimmed_is,
    lemma_trimmed_is_no_longer, lined, lines, lines_of, lower_text, lowered, option_str, parted,
    result_text, same_ignoring_case, same_text, split_once, spread, texts, trim, trimmed,
    unit_result, white_space,
};
use crate::window::MAIN_LABEL;

verus! {

/// Argument the registration carries.
pub const FLAG: &'static str = "--autostart";

/// Whether one of the arguments is [`FLAG`]. An argument that is not text is `None`.
pub fn has_flag(args: &Vec<Option<String>>) -> (r: bool)
    ensures
        r == exists|i: int| 0 <= i < args@.len() && #[trigger] args@[i] is Some && args@[i]->0@ == FLAG@,
{
    let mut i: usize = 0;
    while i < args.len()
        invariant
            i <= args@.len(),
            forall|j: int|
                0 <= j < i ==> !(#[trigger] args@[j] is Some && args@[j]->0@ == FLAG@),
        decreases args@.len() - i,
    {
        if let Some(arg) = &args[i] {
            if same_text(arg.as_str(), FLAG) {
                return true;
            }
        }
        i += 1;
    }
    false
}

// ---------------------------------------------------------------------------------------
// What is registered, rendered for each platform.

/// `"<exe>" --autostart`.
pub open spec fn run_command(exe: Seq<char>) -> Seq<char> {
    "\""@ + exe + "\" "@ + FLAG@
}

/// The command of a Windows `Run` value. The quotes keep a space in the install path from
/// ending the program's name early.
pub fn windows_run_command(exe: &str) -> (r: String)
    ensures
        r@ == run_command(exe@),
{
    let mut r = "\"".to_string();
    r.append(exe);
    r.append("\" ");
    r.append(FLAG);
    r
}

/// The characters XML 1.0 cannot carry, or would hand back as another one: the C0 set but
/// tab and line feed, U+FFFE and U+FFFF.
pub open spec fn unrepresentable(c: char) -> bool {
    (c < '\x20' && c != '\t' && c != '\n') || c == '\u{FFFE}' || c == '\u{FFFF}'
}

fn is_unrepresentable(c: char) -> (r: bool)
    ensures
        r == unrepresentable(c),
{
    (c < '\x20' && c != '\t' && c != '\n') || c == '\u{FFFE}' || c == '\u{FFFF}'
}

/// The markup characters of XML as entities, every other character as itself.
pub open spec fn entity(c: char) -> Seq<char> {
    if c == '&' {
        "&amp;"@
    } else if c == '<' {
        "&lt;"@
    } else if c == '>' {
        "&gt;"@
    } else {
        seq![c]
    }
}

/// The text that stands for `value` between two tags.
pub open spec fn escaped_xml(value: Seq<char>) -> Seq<char> {
    spread(value, |c: char| entity(c))
}

/// Where the first character of the class stands; the length where there is none.
pub open spec fn first_of(s: Seq<char>, class: spec_fn(char) -> bool) -> int
    decreases s.len(),
{
    if s.len() == 0 || class(s[0]) {
        0
    } else {
        1 + first_of(s.skip(1), class)
    }
}

proof fn lemma_first_of_is(s: Seq<char>, class: spec_fn(char) -> bool, k: int)
    requires
        0 <= k <= s.len(),
        k < s.len() ==> class(s[k]),
        forall|j: int| 0 <= j < k ==> !class(#[trigger] s[j]),
    ensures
        first_of(s, class) == k,
    decreases s.len(),
{
    if k > 0 {
        assert(!class(s[0]));
        let rest = s.skip(1);
        assert forall|j: int| 0 <= j < k - 1 implies !class(#[trigger] rest[j]) by {
            assert(!class(s[j + 1]));
        }
        lemma_first_of_is(rest, class, k - 1);
    }
}

/// What a rendered text says of a character it cannot carry.
pub open spec fn refusal(before: Seq<char>, c: char, after: Seq<char>) -> Seq<char> {
    before + hex(c as nat, 4) + after
}

fn refusal_text(before: &str, c: char, after: &str) -> (r: String)
    ensures
        r@ == refusal(before@, c, after@),
{
    let mut r = before.to_string();
    r.append(hex_text(c as u64, 4).as_str());
    r.append(after);
    r
}

/// `&`, `<` and `>` as entities. A value that XML cannot represent is refused rather than
/// changed into one that parses and names something else; the message gives the first
/// character at fault.
pub open spec fn xml_or_refusal(value: Seq<char>) -> Result<Seq<char>, Seq<char>> {
    let k = first_of(value, |c: char| unrepresentable(c));
    if k < value.len() {
        Err(refusal("value contains U+"@, value[k], ", which XML cannot represent"@))
    } else {
        Ok(escaped_xml(value))
    }
}

pub fn escape_xml(value: &str) -> (r: Result<String, String>)
    ensures
        result_text(r) == xml_or_refusal(value@),
{
    let v = chars_of(value);
    let ghost class = |c: char| unrepresentable(c);
    let ghost f = |c: char| entity(c);
    let mut out = String::new();
    let mut i: usize = 0;
    assert(value@.take(0) =~= Seq::<char>::empty());
    while i < v.len()
        invariant
            v@ == value@,
            i <= v@.len(),
            class == |c: char| unrepresentable(c),
            f == |c: char| entity(c),
            forall|j: int| 0 <= j < i ==> !class(#[trigger] value@[j]),
            out@ == spread(value@.take(i as int), f),
        decreases v@.len() - i,
    {
        let c = v[i];
        if is_unrepresentable(c) {
            proof {
                lemma_first_of_is(value@, class, i as int);
            }
            return Err(refusal_text("value contains U+", c, ", which XML cannot represent"));
        }
        let ghost before = out@;
        if c == '&' {
            out.append("&amp;");
        } else if c == '<' {
            out.append("&lt;");
        } else if c == '>' {
            out.append("&gt;");
        } else {
            out.push(c);
        }
        proof {
            assert(out@ =~= before + f(c));
            lemma_spread_push(value@.take(i as int), c, f);
            assert(value@.take(i as int).push(c) =~= value@.take(i + 1));
        }
        i += 1;
    }
    proof {
        lemma_first_of_is(value@, class, i as int);
        assert(value@.take(i as int) =~= value@);
    }
    Ok(out)
}

pub const PLIST_HEAD: &'static str = "<?xml version=\"1.0\" encoding=\"UTF-8\"?>\n<!DOCTYPE plist PUBLIC \"-//Apple//DTD PLIST 1.0//EN\" \"http://www.apple.com/DTDs/PropertyList-1.0.dtd\">\n<plist version=\"1.0\">\n<dict>\n\t<key>Label</key>\n\t<string>";

pub const PLIST_ASSOCIATED: &'static str = "</string>\n\t<key>AssociatedBundleIdentifiers</key>\n\t<array>\n\t\t<string>";

pub const PLIST_ARGUMENTS: &'static str = "</string>\n\t</array>\n\t<key>ProgramArguments</key>\n\t<array>\n\t\t<string>";

pub const PLIST_NEXT: &'static str = "</string>\n\t\t<string>";

pub const PLIST_TAIL: &'static str = "</string>\n\t</array>\n\t<key>RunAtLoad</key>\n\t<true/>\n</dict>\n</plist>\n";

/// A launchd user agent around an identifier and a program path that are already escaped.
pub open spec fn plist(id: Seq<char>, path: Seq<char>) -> Seq<char> {
    PLIST_HEAD@ + id + PLIST_ASSOCIATED@ + id + PLIST_ARGUMENTS@ + path + PLIST_NEXT@ + FLAG@
        + PLIST_TAIL@
}

/// A launchd user agent, attributed to the application and not kept alive, so that quitting
/// means quitting.
pub fn macos_plist(exe: &str, bundle_id: &str) -> (r: Result<String, String>)
    ensures
        result_text(r) == match (xml_or_refusal(bundle_id@), xml_or_refusal(exe@)) {
            (Err(why), _) => Err(why),
            (_, Err(why)) => Err(why),
            (Ok(id), Ok(path)) => Ok::<Seq<char>, Seq<char>>(plist(id, path)),
        },
{
    let id = match escape_xml(bundle_id) {
        Ok(id) => id,
        Err(why) => {
            return Err(why);
        },
    };
    let path = match escape_xml(exe) {
        Ok(path) => path,
        Err(why) => {
            return Err(why);
        },
    };
    let mut r = PLIST_HEAD.to_string();
    r.append(id.as_str());
    r.append(PLIST_ASSOCIATED);
    r.append(id.as_str());
    r.append(PLIST_ARGUMENTS);
    r.append(path.as_str());
    r.append(PLIST_NEXT);
    r.append(FLAG);
    r.append(PLIST_TAIL);
    Ok(r)
}

/// One character of a quoted argument of an `Exec=` value. `%` introduces a field code and
/// is doubled. The reserved characters take a backslash, written doubled because the value
/// is itself a string with escapes; so a backslash of the argument is written as four.
pub open spec fn exec_escape(c: char) -> Seq<char> {
    if c == '%' {
        "%%"@
    } else if c == '\\' {
        "\\\\\\\\"@
    } else if c == '"' || c == '$' || c == '`' {
        "\\\\"@.push(c)
    } else {
        seq![c]
    }
}

pub open spec fn escaped_exec_arg(value: Seq<char>) -> Seq<char> {
    spread(value, |c: char| exec_escape(c))
}

/// A control character would end the line or break the entry, so it is refused; the message
/// gives the first one.
pub open spec fn exec_arg_or_refusal(value: Seq<char>) -> Result<Seq<char>, Seq<char>> {
    let k = first_of(value, |c: char| control(c));
    if k < value.len() {
        Err(refusal("path contains U+"@, value[k], ", which a desktop entry cannot carry"@))
    } else {
        Ok(escaped_exec_arg(value))
    }
}

pub fn desktop_exec_arg(value: &str) -> (r: Result<String, String>)
    ensures
        result_text(r) == exec_arg_or_refusal(value@),
{
    let v = chars_of(value);
    let ghost class = |c: char| control(c);
    let ghost f = |c: char| exec_escape(c);
    let mut out = String::new();
    let mut i: usize = 0;
    assert(value@.take(0) =~= Seq::<char>::empty());
    while i < v.len()
        invariant
            v@ == value@,
            i <= v@.len(),
            class == |c: char| control(c),
            f == |c: char| exec_escape(c),
            forall|j: int| 0 <= j < i ==> !class(#[trigger] value@[j]),
            out@ == spread(value@.take(i as int), f),
        decreases v@.len() - i,
    {
        let c = v[i];
        if is_control(c) {
            proof {
                lemma_first_of_is(value@, class, i as int);
            }
            return Err(refusal_text("path contains U+", c, ", which a desktop entry cannot carry"));
        }
        let ghost before = out@;
        if c == '%' {
            out.append("%%");
        } else if c == '\\' {
            out.append("\\\\\\\\");
        } else if c == '"' || c == '$' || c == '`' {
            out.append("\\\\");
            out.push(c);
        } else {
            out.push(c);
        }
        proof {
            assert(out@ =~= before + f(c));
            lemma_spread_push(value@.take(i as int), c, f);
            assert(value@.take(i as int).push(c) =~= value@.take(i + 1));
        }
        i += 1;
    }
    proof {
        lemma_first_of_is(value@, class, i as int);
        assert(value@.take(i as int) =~= value@);
    }
    Ok(out)
}

pub const ENTRY_HEAD: &'static str = "[Desktop Entry]\nType=Application\nName=OpenFrame\nExec=\"";

/// The XDG autostart entry around a program path that is already escaped.
pub open spec fn desktop_entry(path: Seq<char>) -> Seq<char> {
    ENTRY_HEAD@ + path + "\" "@ + FLAG@ + "\n"@
}

/// An XDG autostart entry, carrying only the keys this application owns.
pub fn linux_desktop_entry(exe: &str) -> (r: Result<String, String>)
    ensures
        result_text(r) == match exec_arg_or_refusal(exe@) {
            Err(why) => Err(why),
            Ok(path) => Ok::<Seq<char>, Seq<char>>(desktop_entry(path)),
        },
{
    let path = match desktop_exec_arg(exe) {
        Ok(path) => path,
        Err(why) => {
            return Err(why);
        },
    };
    let mut r = ENTRY_HEAD.to_string();
    r.append(path.as_str());
    r.append("\" ");
    r.append(FLAG);
    r.append("\n");
    Ok(r)
}

// ---------------------------------------------------------------------------------------
// Reading a desktop entry back.

/// A line's key in lower case and its value, without the white space around either.
pub open spec fn pair_of(line: Seq<char>) -> Option<(Seq<char>, Seq<char>)> {
    match parted(line, '=') {
        Some(p) => Some((lowered(trimmed(p.0)), trimmed(p.1))),
        None => None,
    }
}

pub fn desktop_pair(line: &str) -> (r: Option<(String, String)>)
    ensures
        match r {
            Some(p) => pair_of(line@) == Some((p.0@, p.1@)),
            None => pair_of(line@) is None,
        },
{
    match split_once(line, '=') {
        Some((key, value)) => Some((lower_text(trim(key.as_str()).as_str()), trim(value.as_str()))),
        None => None,
    }
}

/// Whether a line is the desktop environment's own switch, in either spelling.
pub open spec fn switch_line(line: Seq<char>) -> bool {
    match pair_of(line) {
        Some(p) => p.0 == "hidden"@ || p.0 == "x-gnome-autostart-enabled"@,
        None => false,
    }
}

/// Whether a line is that switch, turned off.
pub open spec fn switch_off(line: Seq<char>) -> bool {
    match pair_of(line) {
        Some(p) => if p.0 == "hidden"@ {
            lowered(p.1) == lowered("true"@)
        } else {
            p.0 == "x-gnome-autostart-enabled"@ && lowered(p.1) == lowered("false"@)
        },
        None => false,
    }
}

/// Whether some line of an entry is the switch turned off.
pub open spec fn os_disabled(contents: Seq<char>) -> bool {
    exists|i: int| 0 <= i < lines(contents).len() && switch_off(#[trigger] lines(contents)[i])
}

/// Whether the desktop environment's own switch, which it writes into the entry, says the
/// user turned this off: `Hidden=true`, or `X-GNOME-Autostart-enabled=false`.
pub fn linux_os_disabled(contents: &str) -> (r: bool)
    ensures
        r == os_disabled(contents@),
{
    let all = lines_of(contents);
    let mut i: usize = 0;
    while i < all.len()
        invariant
            texts(all@) == lines(contents@),
            i <= all@.len(),
            forall|j: int| 0 <= j < i ==> !switch_off(#[trigger] lines(contents@)[j]),
        decreases all@.len() - i,
    {
        assert(lines(contents@)[i as int] == texts(all@)[i as int]);
        if let Some((key, value)) = desktop_pair(all[i].as_str()) {
            if same_text(key.as_str(), "hidden") {
                if same_ignoring_case(value.as_str(), "true") {
                    return true;
                }
            } else if same_text(key.as_str(), "x-gnome-autostart-enabled") {
                if same_ignoring_case(value.as_str(), "false") {
                    return true;
                }
            }
        }
        i += 1;
    }
    false
}

/// Whether a line is one this application writes.
pub open spec fn our_line(line: Seq<char>) -> bool {
    ||| trimmed(line) == "[Desktop Entry]"@
    ||| match pair_of(trimmed(line)) {
        Some(p) => p.0 == "type"@ || p.0 == "name"@ || p.0 == "exec"@,
        None => false,
    }
}

fn is_our_line(line: &str) -> (r: bool)
    ensures
        r == our_line(line@),
{
    let bare = trim(line);
    if same_text(bare.as_str(), "[Desktop Entry]") {
        return true;
    }
    match desktop_pair(bare.as_str()) {
        Some((key, _)) => same_text(key.as_str(), "type") || same_text(key.as_str(), "name")
            || same_text(key.as_str(), "exec"),
        None => false,
    }
}

/// The lines this application owns, in order, trimmed.
pub open spec fn our_lines(all: Seq<Seq<char>>) -> Seq<Seq<char>> {
    all.filter(|line: Seq<char>| our_line(line)).map_values(|line: Seq<char>| trimmed(line))
}

/// The part of an entry that a staleness check compares.
pub open spec fn ours(contents: Seq<char>) -> Seq<char> {
    joined(our_lines(lines(contents)), "\n"@)
}

/// The lines this application owns, which is all a staleness check may compare: a desktop
/// environment may add anything else to the entry.
pub fn linux_ours(contents: &str) -> (r: String)
    ensures
        r@ == ours(contents@),
{
    let all = lines_of(contents);
    let ghost whole = lines(contents@);
    let ghost pred = |line: Seq<char>| our_line(line);
    let mut out = String::new();
    let mut first = true;
    let mut i: usize = 0;
    assert(whole.take(0).filter(pred) =~= Seq::<Seq<char>>::empty()) by {
        reveal(Seq::filter);
    }
    assert(our_lines(whole.take(0)) =~= Seq::<Seq<char>>::empty());
    while i < all.len()
        invariant
            texts(all@) == whole,
            pred == |line: Seq<char>| our_line(line),
            i <= all@.len(),
            out@ == joined(our_lines(whole.take(i as int)), "\n"@),
            first == (our_lines(whole.take(i as int)).len() == 0),
        decreases all@.len() - i,
    {
        let ghost done = whole.take(i as int);
        assert(whole[i as int] == texts(all@)[i as int]);
        assert(whole.take(i + 1) =~= done.push(all@[i as int]@));
        assert(whole.take(i + 1).drop_last() =~= done);
        proof {
            reveal(Seq::filter);
        }
        if is_our_line(all[i].as_str()) {
            let line = trim(all[i].as_str());
            assert(our_lines(whole.take(i + 1)) =~= our_lines(done).push(line@));
            assert(our_lines(whole.take(i + 1)).drop_last() =~= our_lines(done));
            if !first {
                out.append("\n");
            }
            out.append(line.as_str());
            assert(first ==> out@ =~= line@);
            first = false;
        } else {
            assert(our_lines(whole.take(i + 1)) =~= our_lines(done));
        }
        i += 1;
    }
    assert(whole.take(i as int) =~= whole);
    out
}

/// The switch lines of an entry, in order, trimmed.
pub open spec fn switch_lines(all: Seq<Seq<char>>) -> Seq<Seq<char>> {
    all.filter(|line: Seq<char>| switch_line(line)).map_values(|line: Seq<char>| trimmed(line))
}

/// What a rewrite carries across of an entry.
pub open spec fn preserved(contents: Seq<char>) -> Seq<char> {
    lined(switch_lines(lines(contents)))
}

/// The switch lines to carry across a rewrite: a repair is about the binary's path, not
/// about overruling the user.
pub fn linux_preserved(contents: &str) -> (r: String)
    ensures
        r@ == preserved(contents@),
{
    let all = lines_of(contents);
    let ghost whole = lines(contents@);
    let ghost pred = |line: Seq<char>| switch_line(line);
    let mut out = String::new();
    let mut i: usize = 0;
    assert(whole.take(0).filter(pred) =~= Seq::<Seq<char>>::empty()) by {
        reveal(Seq::filter);
    }
    assert(switch_lines(whole.take(0)) =~= Seq::<Seq<char>>::empty());
    while i < all.len()
        invariant
            texts(all@) == whole,
            pred == |line: Seq<char>| switch_line(line),
            i <= all@.len(),
            out@ == lined(switch_lines(whole.take(i as int))),
        decreases all@.len() - i,
    {
        let ghost done = whole.take(i as int);
        assert(whole[i as int] == texts(all@)[i as int]);
        assert(whole.take(i + 1) =~= done.push(all@[i as int]@));
        assert(whole.take(i + 1).drop_last() =~= done);
        proof {
            reveal(Seq::filter);
        }
        let is_switch = match desktop_pair(all[i].as_str()) {
            Some((key, _)) => same_text(key.as_str(), "hidden") || same_text(
                key.as_str(),
                "x-gnome-autostart-enabled",
            ),
            None => false,
        };
        if is_switch {
            let line = trim(all[i].as_str());
            assert(switch_lines(whole.take(i + 1)) =~= switch_lines(done).push(line@));
            assert(switch_lines(whole.take(i + 1)).drop_last() =~= switch_lines(done));
            let ghost before = out@;
            out.append(line.as_str());
            out.push('\n');
            assert(out@ =~= before + line@.push('\n'));
        } else {
            assert(switch_lines(whole.take(i + 1)) =~= switch_lines(done));
        }
        i += 1;
    }
    assert(whole.take(i as int) =~= whole);
    out
}

/// The entry to write over an existing one: the new content, with the user's switch.
pub open spec fn rewritten(existing: Option<Seq<char>>, content: Seq<char>) -> Seq<char> {
    match existing {
        Some(old_entry) => content + preserved(old_entry),
        None => content,
    }
}

/// Carry the desktop environment's switch across a rewrite, so that a repair of the binary's
/// path does not double as turning back on what the user turned off.
pub fn preserve(existing: Option<&str>, content: String) -> (r: String)
    ensures
        r@ == rewritten(
            match existing {
                Some(e) => Some(e@),
                None => None,
            },
            content@,
        ),
{
    let mut r = content;
    if let Some(existing) = existing {
        r.append(linux_preserved(existing).as_str());
    }
    r
}

// ---------------------------------------------------------------------------------------
// What an entry means to the desktop that reads it.

/// A value of a desktop entry as its reader decodes it: `\s`, `\n`, `\t`, `\r` and `\\`.
pub open spec fn string_decoded(s: Seq<char>) -> Seq<char>
    decreases s.len(),
{
    if s.len() == 0 {
        s
    } else if s[0] == '\\' && s.len() >= 2 && (s[1] == 's' || s[1] == 'n' || s[1] == 't' || s[1]
        == 'r' || s[1] == '\\') {
        seq![
            if s[1] == 's' {
                ' '
            } else if s[1] == 'n' {
                '\n'
            } else if s[1] == 't' {
                '\t'
            } else if s[1] == 'r' {
                '\r'
            } else {
                '\\'
            },
        ] + string_decoded(s.skip(2))
    } else {
        seq![s[0]] + string_decoded(s.skip(1))
    }
}

/// The reserved characters of a quoted argument.
pub open spec fn reserved(c: char) -> bool {
    c == '"' || c == '`' || c == '$' || c == '\\'
}

/// A quoted argument without the backslashes before reserved characters.
pub open spec fn unquoted(s: Seq<char>) -> Seq<char>
    decreases s.len(),
{
    if s.len() == 0 {
        s
    } else if s[0] == '\\' && s.len() >= 2 && reserved(s[1]) {
        seq![s[1]] + unquoted(s.skip(2))
    } else {
        seq![s[0]] + unquoted(s.skip(1))
    }
}

/// An argument with its field codes expanded by a launcher that has nothing to put in their
/// place: `%%` is a percent sign, any other code goes.
pub open spec fn expanded(s: Seq<char>) -> Seq<char>
    decreases s.len(),
{
    if s.len() == 0 {
        s
    } else if s[0] == '%' && s.len() >= 2 {
        if s[1] == '%' {
            seq!['%'] + expanded(s.skip(2))
        } else {
            expanded(s.skip(2))
        }
    } else {
        seq![s[0]] + expanded(s.skip(1))
    }
}

/// One character once the value has been decoded.
spec fn decoded_escape(c: char) -> Seq<char> {
    if c == '%' {
        seq!['%', '%']
    } else if reserved(c) {
        seq!['\\', c]
    } else {
        seq![c]
    }
}

/// One character once the argument has been unquoted too.
spec fn unquoted_escape(c: char) -> Seq<char> {
    if c == '%' {
        seq!['%', '%']
    } else {
        seq![c]
    }
}

proof fn lemma_string_decoded(s: Seq<char>)
    ensures
        string_decoded(spread(s, |c: char| exec_escape(c))) == spread(s, |c: char| decoded_escape(c)),
    decreases s.len(),
{
    let e = |c: char| exec_escape(c);
    let d = |c: char| decoded_escape(c);
    if s.len() > 0 {
        let c = s[0];
        let rest = spread(s.skip(1), e);
        let whole = spread(s, e);
        lemma_string_decoded(s.skip(1));
        reveal_strlit("%%");
        reveal_strlit("\\\\\\\\");
        reveal_strlit("\\\\");
        if c == '%' {
            assert(whole.skip(1) =~= seq!['%'] + rest);
            assert(whole.skip(1).skip(1) =~= rest);
            assert(string_decoded(whole.skip(1)) =~= seq!['%'] + string_decoded(rest));
        } else if c == '\\' {
            assert(whole.skip(2) =~= seq!['\\', '\\'] + rest);
            assert(whole.skip(2).skip(2) =~= rest);
            assert(string_decoded(whole.skip(2)) =~= seq!['\\'] + string_decoded(rest));
        } else if reserved(c) {
            assert(whole.skip(2) =~= seq![c] + rest);
            assert(whole.skip(2).skip(1) =~= rest);
            assert(string_decoded(whole.skip(2)) =~= seq![c] + string_decoded(rest));
        } else {
            assert(whole.skip(1) =~= rest);
        }
        assert(string_decoded(whole) =~= d(c) + string_decoded(rest));
    } else {
        assert(spread(s, e) =~= spread(s, d));
    }
}

proof fn lemma_unquoted(s: Seq<char>)
    ensures
        unquoted(spread(s, |c: char| decoded_escape(c))) == spread(s, |c: char| unquoted_escape(c)),
    decreases s.len(),
{
    let d = |c: char| decoded_escape(c);
    let u = |c: char| unquoted_escape(c);
    if s.len() > 0 {
        let c = s[0];
        let rest = spread(s.skip(1), d);
        let whole = spread(s, d);
        lemma_unquoted(s.skip(1));
        if c == '%' {
            assert(whole.skip(1) =~= seq!['%'] + rest);
            assert(whole.skip(1).skip(1) =~= rest);
            assert(unquoted(whole.skip(1)) =~= seq!['%'] + unquoted(rest));
        } else if reserved(c) {
            assert(whole.skip(2) =~= rest);
        } else {
            assert(whole.skip(1) =~= rest);
        }
        assert(unquoted(whole) =~= u(c) + unquoted(rest));
    } else {
        assert(spread(s, d) =~= spread(s, u));
    }
}

proof fn lemma_expanded(s: Seq<char>)
    ensures
        expanded(spread(s, |c: char| unquoted_escape(c))) == s,
    decreases s.len(),
{
    let u = |c: char| unquoted_escape(c);
    if s.len() > 0 {
        let c = s[0];
        let rest = spread(s.skip(1), u);
        let whole = spread(s, u);
        lemma_expanded(s.skip(1));
        if c == '%' {
            assert(whole.skip(2) =~= rest);
        } else {
            assert(whole.skip(1) =~= rest);
        }
        assert(expanded(whole) =~= seq![c] + expanded(rest));
        assert(seq![c] + s.skip(1) =~= s);
    } else {
        assert(spread(s, u) =~= s);
    }
}

/// A launcher that decodes the value, unquotes the argument and expands its field codes is
/// left with the path that was registered, whatever characters it has.
pub proof fn exec_argument_reads_back(path: Seq<char>)
    ensures
        expanded(unquoted(string_decoded(escaped_exec_arg(path)))) == path,
{
    lemma_string_decoded(path);
    lemma_unquoted(path);
    lemma_expanded(path);
}

/// The text an XML parser hands back for `s`, where `s` uses no entity but the three.
pub open spec fn xml_read(s: Seq<char>) -> Seq<char>
    decreases s.len(),
{
    if s.len() == 0 {
        s
    } else if s.len() >= 5 && "&amp;"@.is_prefix_of(s) {
        seq!['&'] + xml_read(s.skip(5))
    } else if s.len() >= 4 && "&lt;"@.is_prefix_of(s) {
        seq!['<'] + xml_read(s.skip(4))
    } else if s.len() >= 4 && "&gt;"@.is_prefix_of(s) {
        seq!['>'] + xml_read(s.skip(4))
    } else {
        seq![s[0]] + xml_read(s.skip(1))
    }
}

/// A value in a property list holds no markup of its own and reads back as it was.
pub proof fn escaped_xml_reads_back(value: Seq<char>)
    ensures
        xml_read(escaped_xml(value)) == value,
        !escaped_xml(value).contains('<'),
        !escaped_xml(value).contains('>'),
    decreases value.len(),
{
    let f = |c: char| entity(c);
    let whole = escaped_xml(value);
    if value.len() > 0 {
        let c = value[0];
        let rest = escaped_xml(value.skip(1));
        escaped_xml_reads_back(value.skip(1));
        reveal_strlit("&amp;");
        reveal_strlit("&lt;");
        reveal_strlit("&gt;");
        assert(whole == f(c) + rest);
        let n = f(c).len() as int;
        assert(whole.skip(n) =~= rest);
        assert(whole.take(n) =~= f(c));
        if c == '&' {
            assert("&amp;"@.is_prefix_of(whole));
        } else if c == '<' {
            assert(whole[1] == 'l');
            assert(!"&amp;"@.is_prefix_of(whole));
            assert("&lt;"@.is_prefix_of(whole));
        } else if c == '>' {
            assert(whole[1] == 'g');
            assert(!"&amp;"@.is_prefix_of(whole));
            assert(!"&lt;"@.is_prefix_of(whole));
            assert("&gt;"@.is_prefix_of(whole));
        } else {
            assert(whole[0] == c);
            assert(!"&amp;"@.is_prefix_of(whole));
            assert(!"&lt;"@.is_prefix_of(whole));
            assert(!"&gt;"@.is_prefix_of(whole));
        }
        assert(xml_read(whole) =~= seq![c] + xml_read(rest));
        assert(seq![c] + value.skip(1) =~= value);
        assert forall|i: int| 0 <= i < whole.len() implies whole[i] != '<' && whole[i] != '>' by {
            if i >= n {
                assert(whole[i] == rest[i - n]);
                assert(rest.contains(rest[i - n]));
            } else {
                assert(whole[i] == f(c)[i]);
            }
        }
    } else {
        assert(whole =~= value);
    }
}

// ---------------------------------------------------------------------------------------
// What others add to an entry, and what a rewrite keeps of it.

/// Trimming a line first changes nothing of how its key and value read.
proof fn lemma_pair_of_trimmed(line: Seq<char>)
    ensures
        pair_of(trimmed(line)) == pair_of(line),
{
    let b = lemma_trimmed(line);
    let core = trimmed(line);
    lemma_first_at(line, '=');
    lemma_first_at(core, '=');
    let i = first_at(line, '=');
    if i < line.len() {
        assert(b.0 <= i < b.1) by {
            if i < b.0 {
                assert(line.take(b.0)[i] == '=');
            } else if b.1 <= i {
                assert(line.skip(b.1)[i - b.1] == '=');
            }
        }
        assert(core[i - b.0] == '=');
        assert forall|j: int| 0 <= j < i - b.0 implies core[j] != '=' by {
            assert(core[j] == line[b.0 + j]);
        }
        lemma_first_at_is(core, '=', i - b.0);
        let key = line.take(i);
        let value = line.skip(i + 1);
        assert(key.take(b.0) =~= line.take(b.0));
        lemma_trim_ignores_front(key, b.0);
        assert(core.take(i - b.0) =~= key.skip(b.0));
        assert(value.skip(b.1 - i - 1) =~= line.skip(b.1));
        lemma_trim_ignores_back(value, b.1 - i - 1);
        assert(core.skip(i - b.0 + 1) =~= value.take(b.1 - i - 1));
    } else {
        assert(!core.contains('=')) by {
            if core.contains('=') {
                let k = choose|k: int| 0 <= k < core.len() && core[k] == '=';
                assert(line[b.0 + k] == '=');
            }
        }
    }
}

/// Whatever a desktop environment adds behind an entry, as long as none of its lines is one
/// this application writes, the entry does not read as stale.
pub proof fn additions_do_not_read_as_staleness(entry: Seq<char>, added: Seq<char>)
    requires
        entry.len() == 0 || entry.last() == '\n',
        forall|i: int| 0 <= i < lines(added).len() ==> !our_line(#[trigger] lines(added)[i]),
    ensures
        ours(entry + added) == ours(entry),
{
    let pred = |line: Seq<char>| our_line(line);
    lemma_lines_of_both(entry, added);
    Seq::filter_distributes_over_add(lines(entry), lines(added), pred);
    lemma_filter_none(lines(added), pred);
    assert(lines(entry).filter(pred) + Seq::<Seq<char>>::empty() =~= lines(entry).filter(pred));
}

/// The lines a rewrite carries across are the switch lines of the entry it replaces.
proof fn lemma_preserved_lines(existing: Seq<char>)
    ensures
        lines(preserved(existing)) == switch_lines(lines(existing)),
{
    let pred = |line: Seq<char>| switch_line(line);
    let all = lines(existing);
    let parts = switch_lines(all);
    lemma_filter(all, pred);
    lemma_lines_hold_no_line_feed(existing);
    assert forall|i: int| 0 <= i < parts.len() implies !(#[trigger] parts[i]).contains('\n') && (
    parts[i].len() == 0 || parts[i].last() != '\r') by {
        let line = all.filter(pred)[i];
        assert(parts[i] == trimmed(line));
        let b = lemma_trimmed(line);
        assert(all.contains(line));
        let k = choose|k: int| 0 <= k < all.len() && all[k] == line;
        assert(!all[k].contains('\n'));
        if parts[i].contains('\n') {
            let j = choose|j: int| 0 <= j < parts[i].len() && parts[i][j] == '\n';
            assert(line[b.0 + j] == '\n');
        }
    }
    lemma_lines_of_lined(parts);
}

/// The lines of the entry this application writes.
proof fn lemma_entry_lines(path: Seq<char>)
    requires
        forall|i: int| 0 <= i < path.len() ==> !control(#[trigger] path[i]),
    ensures
        lines(desktop_entry(path)) == seq![
            "[Desktop Entry]"@,
            "Type=Application"@,
            "Name=OpenFrame"@,
            "Exec=\""@ + path + "\" "@ + FLAG@,
        ],
        desktop_entry(path).last() == '\n',
{
    reveal_strlit("[Desktop Entry]");
    reveal_strlit("Type=Application");
    reveal_strlit("Name=OpenFrame");
    reveal_strlit("Exec=\"");
    reveal_strlit("\" ");
    reveal_strlit("--autostart");
    reveal_strlit("\n");
    reveal_strlit("[Desktop Entry]\nType=Application\nName=OpenFrame\nExec=\"");
    let last = "Exec=\""@ + path + "\" "@ + FLAG@;
    let parts = seq!["[Desktop Entry]"@, "Type=Application"@, "Name=OpenFrame"@, last];
    assert forall|i: int| 0 <= i < last.len() implies last[i] != '\n' by {
        if 6 <= i < 6 + path.len() {
            assert(last[i] == path[i - 6]);
            assert(!control(path[i - 6]));
        } else if i < 6 {
            assert(last[i] == "Exec=\""@[i]);
        } else if i < 8 + path.len() {
            assert(last[i] == "\" "@[i - 6 - path.len()]);
        } else {
            assert(last[i] == FLAG@[i - 8 - path.len()]);
        }
    }
    assert(last.last() == FLAG@[10]);
    lemma_lines_of_lined(parts);
    let p3 = parts.drop_last();
    let p2 = p3.drop_last();
    let p1 = p2.drop_last();
    assert(p1.drop_last() =~= Seq::<Seq<char>>::empty());
    assert(lined(p1.drop_last()) =~= Seq::<char>::empty());
    assert(lined(p1) =~= "[Desktop Entry]"@.push('\n'));
    assert(lined(p2) =~= "[Desktop Entry]"@.push('\n') + "Type=Application"@.push('\n'));
    assert(lined(p3) =~= "[Desktop Entry]"@.push('\n') + "Type=Application"@.push('\n')
        + "Name=OpenFrame"@.push('\n'));
    assert(lined(parts) =~= lined(p3) + last.push('\n'));
    assert(lined(p3) + "Exec=\""@ =~= ENTRY_HEAD@);
    assert(desktop_entry(path) =~= lined(parts));
}

/// A key no longer than four characters is not the switch.
proof fn lemma_short_key(line: Seq<char>)
    requires
        first_at(line, '=') <= 4 || first_at(line, '=') == line.len(),
    ensures
        !switch_line(line),
        !switch_off(line),
{
    reveal_strlit("hidden");
    reveal_strlit("x-gnome-autostart-enabled");
    assert("hidden"@.len() == 6 && "x-gnome-autostart-enabled"@.len() == 25);
    lemma_first_at(line, '=');
    let key = line.take(first_at(line, '='));
    lemma_trimmed_is_no_longer(key);
    assert(lowered(trimmed(key)).len() == trimmed(key).len());
}

/// The entry this application writes is not switched off.
pub proof fn written_entry_is_enabled(path: Seq<char>)
    requires
        forall|i: int| 0 <= i < path.len() ==> !control(#[trigger] path[i]),
    ensures
        !os_disabled(desktop_entry(path)),
{
    lemma_entry_lines(path);
    let all = lines(desktop_entry(path));
    reveal_strlit("[Desktop Entry]");
    reveal_strlit("Type=Application");
    reveal_strlit("Name=OpenFrame");
    reveal_strlit("Exec=\"");
    let last = "Exec=\""@ + path + "\" "@ + FLAG@;
    lemma_first_at_is("[Desktop Entry]"@, '=', 15);
    lemma_first_at_is("Type=Application"@, '=', 4);
    lemma_first_at_is("Name=OpenFrame"@, '=', 4);
    assert forall|j: int| 0 <= j < 4 implies last[j] != '=' by {
        assert(last[j] == "Exec=\""@[j]);
    }
    assert(last[4] == "Exec=\""@[4]);
    lemma_first_at_is(last, '=', 4);
    assert forall|i: int| 0 <= i < all.len() implies !switch_off(#[trigger] all[i]) by {
        lemma_short_key(all[i]);
    }
}

/// An escaped path holds no control character where the path itself holds none.
proof fn lemma_escaped_without_controls(path: Seq<char>)
    requires
        first_of(path, |c: char| control(c)) == path.len(),
    ensures
        forall|i: int|
            0 <= i < escaped_exec_arg(path).len() ==> !control(
                #[trigger] escaped_exec_arg(path)[i],
            ),
{
    let e = |c: char| exec_escape(c);
    lemma_first_of_none(path, |c: char| control(c));
    reveal_strlit("%%");
    reveal_strlit("\\\\\\\\");
    reveal_strlit("\\\\");
    lemma_spread_stays_in(path, e, |c: char| !control(c));
}

proof fn lemma_first_of_none(s: Seq<char>, class: spec_fn(char) -> bool)
    requires
        first_of(s, class) == s.len(),
    ensures
        forall|j: int| 0 <= j < s.len() ==> !class(#[trigger] s[j]),
    decreases s.len(),
{
    if s.len() > 0 {
        lemma_first_of_bound(s.skip(1), class);
        lemma_first_of_none(s.skip(1), class);
        assert forall|j: int| 0 <= j < s.len() implies !class(#[trigger] s[j]) by {
            if j > 0 {
                assert(s.skip(1)[j - 1] == s[j]);
            }
        }
    }
}

proof fn lemma_first_of_bound(s: Seq<char>, class: spec_fn(char) -> bool)
    ensures
        0 <= first_of(s, class) <= s.len(),
    decreases s.len(),
{
    if s.len() > 0 && !class(s[0]) {
        lemma_first_of_bound(s.skip(1), class);
    }
}

/// A repair of the registered path is not an answer to the user's switch: the entry written
/// over an existing one is switched off exactly where the existing one was, and it does not
/// read as stale against what would be written afresh.
pub proof fn rewrite_keeps_the_switch(existing: Seq<char>, exe: Seq<char>)
    requires
        exec_arg_or_refusal(exe) is Ok,
    ensures
        ({
            let entry = desktop_entry(escaped_exec_arg(exe));
            &&& os_disabled(rewritten(Some(existing), entry)) == os_disabled(existing)
            &&& ours(rewritten(Some(existing), entry)) == ours(entry)
        }),
{
    let path = escaped_exec_arg(exe);
    let entry = desktop_entry(path);
    let all = lines(existing);
    let pred = |line: Seq<char>| switch_line(line);
    let kept = all.filter(pred);
    let parts = switch_lines(all);
    let whole = entry + preserved(existing);
    lemma_first_of_bound(exe, |c: char| control(c));
    lemma_escaped_without_controls(exe);
    written_entry_is_enabled(path);
    lemma_entry_lines(path);
    lemma_lines_of_both(entry, preserved(existing));
    lemma_preserved_lines(existing);
    lemma_filter(all, pred);
    assert forall|i: int| 0 <= i < parts.len() implies #[trigger] switch_off(parts[i]) == switch_off(
        kept[i],
    ) && !our_line(parts[i]) by {
        let line = kept[i];
        assert(pred(line));
        lemma_pair_of_trimmed(line);
        lemma_pair_of_trimmed(trimmed(line));
        reveal_strlit("hidden");
        reveal_strlit("x-gnome-autostart-enabled");
        reveal_strlit("type");
        reveal_strlit("name");
        reveal_strlit("exec");
        reveal_strlit("[Desktop Entry]");
        assert("hidden"@.len() == 6 && "x-gnome-autostart-enabled"@.len() == 25);
        assert("type"@.len() == 4 && "name"@.len() == 4 && "exec"@.len() == 4);
        lemma_first_at_is("[Desktop Entry]"@, '=', 15);
        assert(pair_of("[Desktop Entry]"@) is None);
        assert(parts[i] == trimmed(line));
        assert(pair_of(trimmed(parts[i])) == pair_of(line));
    }
    assert forall|i: int| 0 <= i < lines(preserved(existing)).len() implies !our_line(
        #[trigger] lines(preserved(existing))[i],
    ) by {
        assert(switch_off(parts[i]) == switch_off(kept[i]));
    }
    if os_disabled(existing) {
        let i = choose|i: int| 0 <= i < all.len() && switch_off(#[trigger] all[i]);
        assert(pred(all[i]));
        assert(kept.contains(all[i]));
        let k = choose|k: int| 0 <= k < kept.len() && kept[k] == all[i];
        assert(switch_off(parts[k]));
        assert(lines(whole)[lines(entry).len() + k] == parts[k]);
        assert(os_disabled(whole));
    }
    if os_disabled(whole) {
        let i = choose|i: int| 0 <= i < lines(whole).len() && switch_off(#[trigger] lines(whole)[i]);
        if i < lines(entry).len() {
            assert(lines(entry)[i] == lines(whole)[i]);
            assert(false);
        }
        let k = i - lines(entry).len();
        assert(lines(whole)[i] == parts[k]);
        assert(switch_off(kept[k]));
        assert(all.contains(kept[k]));
        let j = choose|j: int| 0 <= j < all.len() && all[j] == kept[k];
        assert(switch_off(all[j]));
    }
    additions_do_not_read_as_staleness(entry, preserved(existing));
}

// ---------------------------------------------------------------------------------------
// The startup reconcile.

#[derive(Clone, Copy, PartialEq, Eq, Debug, Structural)]
pub enum Action {
    Nothing,
    /// Write the registration, which is also the repair of a stale one.
    Register,
    Unregister,
}

#[derive(Clone, Copy, PartialEq, Eq, Debug, Structural)]
pub struct Decision {
    pub action: Action,
    /// Whether this launch is the one that applies the product's default, and so owes the
    /// configuration a record of it.
    pub mark_configured: bool,
}

/// Everything the decision turns on.
#[derive(Clone, Copy, PartialEq, Eq, Debug, Structural)]
pub struct Facts {
    /// The managed-install policy, if there is one.
    pub policy: Option<bool>,
    /// Whether the product's default has already been applied on this machine.
    pub configured: bool,
    /// Whether a registration exists at all.
    pub registered: bool,
    /// Whether that registration still matches what would be written now.
    pub current: bool,
}

impl Default for Facts {
    fn default() -> (r: Self)
        ensures
            r == (Facts { policy: None, configured: false, registered: false, current: false }),
    {
        Facts { policy: None, configured: false, registered: false, current: false }
    }
}

/// What the registration ought to become.
///
/// A policy is converged on: an entry is written where none stands or a stale one does, or
/// removed where one stands. With no policy the default is applied once, on the first
/// launch; after that a registration is repaired and never brought back.
pub open spec fn decision(facts: Facts) -> Decision {
    let stale = !facts.registered || !facts.current;
    match facts.policy {
        Some(on) => Decision {
            action: if on && stale {
                Action::Register
            } else if !on && facts.registered {
                Action::Unregister
            } else {
                Action::Nothing
            },
            mark_configured: false,
        },
        None => Decision {
            action: if !facts.configured || (facts.registered && !facts.current) {
                Action::Register
            } else {
                Action::Nothing
            },
            mark_configured: !facts.configured,
        },
    }
}

pub fn decide(facts: Facts) -> (r: Decision)
    ensures
        r == decision(facts),
{
    match facts.policy {
        Some(true) => if !facts.registered || !facts.current {
            Decision { action: Action::Register, mark_configured: false }
        } else {
            Decision { action: Action::Nothing, mark_configured: false }
        },
        Some(false) => if facts.registered {
            Decision { action: Action::Unregister, mark_configured: false }
        } else {
            Decision { action: Action::Nothing, mark_configured: false }
        },
        None => if !facts.configured {
            Decision { action: Action::Register, mark_configured: true }
        } else if facts.registered && !facts.current {
            Decision { action: Action::Register, mark_configured: false }
        } else {
            Decision { action: Action::Nothing, mark_configured: false }
        },
    }
}

/// What a later launch finds once a decision has been carried out.
pub open spec fn settled(facts: Facts, d: Decision) -> Facts {
    Facts {
        policy: facts.policy,
        configured: facts.configured || d.mark_configured,
        registered: match d.action {
            Action::Register => true,
            Action::Unregister => false,
            Action::Nothing => facts.registered,
        },
        current: match d.action {
            Action::Register => true,
            Action::Unregister => false,
            Action::Nothing => facts.current,
        },
    }
}

/// Whatever one launch decides, the launch after it has nothing left to do: neither a
/// registration to write nor a default to record.
pub proof fn every_decision_reaches_a_fixpoint(facts: Facts)
    ensures
        ({
            let second = decision(settled(facts, decision(facts)));
            second.action == Action::Nothing && !second.mark_configured
        }),
{
}

/// A policy never records the default as applied, so that withdrawing it later leaves the
/// default still to apply.
pub proof fn policy_never_marks_the_default_applied(facts: Facts)
    requires
        facts.policy is Some,
    ensures
        !decision(facts).mark_configured,
        settled(facts, decision(facts)).configured == facts.configured,
{
}

/// With no policy, once the default has been applied, a registration that is gone stays
/// gone.
pub proof fn removed_registration_is_not_resurrected(facts: Facts)
    requires
        facts.policy is None,
        facts.configured,
        !facts.registered,
    ensures
        decision(facts).action == Action::Nothing,
        !settled(facts, decision(facts)).registered,
{
}

/// What the reconcile turns on, off the configuration and the registration.
pub fn facts_of(cfg: &AppConfig, registered: bool, current: bool) -> (r: Facts)
    ensures
        r == (Facts {
            policy: cfg.autostart_enforced,
            configured: cfg.autostart_configured == Some(true),
            registered,
            current,
        }),
{
    let configured = match cfg.autostart_configured {
        Some(configured) => configured,
        None => false,
    };
    Facts { policy: cfg.autostart_enforced, configured, registered, current }
}

/// Whether a policy meets a switch of the user's that goes the other way.
pub open spec fn conflicts(facts: Facts, enabled: bool) -> bool {
    facts.policy == Some(true) && facts.registered && !enabled
}

/// A conflict takes a policy that wants start at login, a registration and a switch that is off:
/// with any of them otherwise there is none.
pub proof fn conflict_takes_a_switched_off_registration(facts: Facts, enabled: bool)
    ensures
        facts.policy == Some(true) && facts.registered ==> (conflicts(facts, enabled)
            <==> !enabled),
        facts.policy != Some(true) ==> !conflicts(facts, enabled),
        !facts.registered ==> !conflicts(facts, enabled),
{
}

/// Whether a policy that wants start at login meets a user who switched it off. It is
/// reported, not overruled.
pub fn policy_conflict(facts: &Facts, enabled: bool) -> (r: bool)
    ensures
        r == conflicts(*facts, enabled),
        r == (facts.policy == Some(true) && facts.registered && !enabled),
{
    match facts.policy {
        Some(policy) => policy && facts.registered && !enabled,
        None => false,
    }
}

/// Record that the default has been applied, so that it is never applied again over a choice
/// of the user's. Says whether the configuration is to be stored.
pub fn mark_configured(cfg: &mut AppConfig) -> (r: bool)
    ensures
        r == (old(cfg).autostart_configured != Some(true)),
        *final(cfg) == (AppConfig { autostart_configured: Some(true), ..*old(cfg) }),
{
    let marked = match cfg.autostart_configured {
        Some(configured) => configured,
        None => false,
    };
    cfg.autostart_configured = Some(true);
    !marked
}

/// The configuration once a decision has been carried out, or could not be.
pub open spec fn config_after_decision(
    cfg: AppConfig,
    decision: Decision,
    carried_out: bool,
) -> AppConfig {
    if carried_out && decision.mark_configured {
        AppConfig { autostart_configured: Some(true), ..cfg }
    } else {
        cfg
    }
}

/// The default counts as applied once it has been, and not before: a registration that failed
/// leaves the configuration as it was, and so does a decision that has nothing to record. Nothing
/// else of the configuration ever changes.
pub proof fn default_is_recorded_once_applied(
    cfg: AppConfig,
    decision: Decision,
    carried_out: bool,
)
    ensures
        ({
            let after = config_after_decision(cfg, decision, carried_out);
            &&& carried_out && decision.mark_configured ==> after.autostart_configured == Some(true)
            &&& !carried_out || !decision.mark_configured ==> after == cfg
            &&& after == (AppConfig { autostart_configured: after.autostart_configured, ..cfg })
        }),
{
}

/// What is left once a decision has been carried out, or could not be. Says whether the
/// configuration is to be stored. Where the registration failed nothing is recorded, so that
/// the next launch tries again.
pub fn reconciled(cfg: &mut AppConfig, decision: &Decision, carried_out: bool) -> (r: bool)
    ensures
        r == (carried_out && decision.mark_configured && old(cfg).autostart_configured != Some(
            true,
        )),
        *final(cfg) == if carried_out && decision.mark_configured {
            AppConfig { autostart_configured: Some(true), ..*old(cfg) }
        } else {
            *old(cfg)
        },
        *final(cfg) == config_after_decision(*old(cfg), *decision, carried_out),
{
    if carried_out && decision.mark_configured {
        mark_configured(cfg)
    } else {
        false
    }
}

// ---------------------------------------------------------------------------------------
// What a platform says of the registration.

/// Whether a byte string has anything but zeros in it.
pub open spec fn some_byte_set(bytes: Seq<u8>) -> bool {
    exists|i: int| 0 <= i < bytes.len() && #[trigger] bytes[i] != 0
}

/// Whether the record of a startup manager leaves an entry on: a state whose lowest bit is
/// clear, and behind it no time at which it was switched off. Either sign alone switches it
/// off; no record at all leaves it on.
pub open spec fn record_approves(record: Option<Seq<u8>>) -> bool {
    match record {
        Some(bytes) => {
            let switched_off = bytes.len() > 0 && bytes[0] % 2 == 1;
            let timed = bytes.len() > 8 && some_byte_set(bytes.skip(bytes.len() - 8));
            !switched_off && !timed
        },
        None => true,
    }
}

/// Whether Task Manager's Startup tab has the entry switched on.
pub fn startup_approved(record: Option<&[u8]>) -> (r: bool)
    ensures
        r == record_approves(
            match record {
                Some(bytes) => Some(bytes@),
                None => None,
            },
        ),
{
    let bytes = match record {
        Some(bytes) => bytes,
        None => {
            return true;
        },
    };
    let n: usize = bytes.len();
    if n > 0 && bytes[0] % 2 == 1 {
        return false;
    }
    if n <= 8 {
        return true;
    }
    let ghost tail = bytes@.skip(n - 8);
    let mut i: usize = n - 8;
    while i < n
        invariant
            record is Some && record->0@ == bytes@,
            n == bytes@.len(),
            8 < n,
            n - 8 <= i <= n,
            tail == bytes@.skip(n - 8),
            forall|j: int| 0 <= j < i - (n - 8) ==> tail[j] == 0,
        decreases n - i,
    {
        if bytes[i] != 0 {
            assert(tail[i - (n - 8)] != 0);
            return false;
        }
        assert(tail[i - (n - 8)] == 0);
        i += 1;
    }
    true
}

/// Whether a Windows registration will be honoured: there is a command, and the user has not
/// switched it off.
pub fn windows_enabled(command: Option<&str>, record: Option<&[u8]>) -> (r: bool)
    ensures
        r == (command is Some && record_approves(
            match record {
                Some(bytes) => Some(bytes@),
                None => None,
            },
        )),
{
    command.is_some() && startup_approved(record)
}

/// Whether a command that is registered is the one that would be written.
pub fn windows_matches(registered: Option<&str>, exe: &str) -> (r: bool)
    ensures
        r == (option_str(registered) == Some(run_command(exe@))),
{
    match registered {
        Some(command) => same_text(command, windows_run_command(exe).as_str()),
        None => false,
    }
}

/// Whether a desktop entry will be honoured: it is there, and the user has not switched it
/// off in it.
pub fn linux_enabled(entry: Option<&str>) -> (r: bool)
    ensures
        r == match entry {
            Some(contents) => !os_disabled(contents@),
            None => false,
        },
{
    match entry {
        Some(contents) => !linux_os_disabled(contents),
        None => false,
    }
}

/// Whether a desktop entry still says what would be written for the executable.
pub open spec fn entry_current(entry: Option<Seq<char>>, exe: Seq<char>) -> bool {
    match (entry, exec_arg_or_refusal(exe)) {
        (Some(contents), Ok(path)) => ours(contents) == ours(desktop_entry(path)),
        _ => false,
    }
}

pub fn linux_matches(entry: Option<&str>, exe: &str) -> (r: bool)
    ensures
        r == entry_current(option_str(entry), exe@),
{
    match (entry, linux_desktop_entry(exe)) {
        (Some(contents), Ok(want)) => same_text(
            linux_ours(contents).as_str(),
            linux_ours(want.as_str()).as_str(),
        ),
        _ => false,
    }
}

/// A repaired entry is current, whatever the entry before it said, and stays as it is from
/// then on, so that no launch repairs it again.
pub proof fn repaired_entry_is_current(existing: Seq<char>, exe: Seq<char>)
    requires
        exec_arg_or_refusal(exe) is Ok,
    ensures
        entry_current(
            Some(rewritten(Some(existing), desktop_entry(escaped_exec_arg(exe)))),
            exe,
        ),
{
    rewrite_keeps_the_switch(existing, exe);
}

/// Whether a launchd agent still says what would be written.
pub fn macos_matches(agent: Option<&str>, exe: &str, bundle_id: &str) -> (r: bool)
    ensures
        r == match (agent, xml_or_refusal(bundle_id@), xml_or_refusal(exe@)) {
            (Some(contents), Ok(id), Ok(path)) => contents@ == plist(id, path),
            _ => false,
        },
{
    match (agent, macos_plist(exe, bundle_id)) {
        (Some(contents), Ok(want)) => same_text(contents, want.as_str()),
        _ => false,
    }
}

// ---------------------------------------------------------------------------------------
// Reading and moving the toggle.

/// What the registration is, in the terms a toggle needs.
#[derive(Clone, Copy, Debug, PartialEq, Eq, Structural)]
pub struct Status {
    /// Whether the application will start at the next login, as far as can be told.
    pub enabled: bool,
    /// Whether a policy pins it.
    pub enforced: bool,
}

/// What went wrong: a kind that the page turns into words, and the message for the log.
#[derive(Debug, PartialEq)]
pub struct AutostartError {
    pub kind: &'static str,
    pub message: String,
}

pub struct AutostartErrorView {
    pub kind: Seq<char>,
    pub message: Seq<char>,
}

impl View for AutostartError {
    type V = AutostartErrorView;

    open spec fn view(&self) -> AutostartErrorView {
        AutostartErrorView { kind: self.kind@, message: self.message@ }
    }
}

impl AutostartError {
    /// A managed install pins this. The caller is told, or its switch would stay flipped.
    pub fn enforced() -> (r: Self)
        ensures
            r@.kind == "enforced"@,
            r@.message == "start at login is managed by your organization"@,
    {
        AutostartError {
            kind: "enforced",
            message: "start at login is managed by your organization".to_string(),
        }
    }

    pub fn unavailable(message: String) -> (r: Self)
        ensures
            r@.kind == "unavailable"@,
            r@.message == message@,
    {
        AutostartError { kind: "unavailable", message }
    }

    pub fn io(message: String) -> (r: Self)
        ensures
            r@.kind == "io"@,
            r@.message == message@,
    {
        AutostartError { kind: "io", message }
    }
}

/// Whether a policy pins start at login.
pub fn enforced(cfg: &AppConfig) -> (r: bool)
    ensures
        r == (cfg.autostart_enforced is Some),
{
    cfg.autostart_enforced.is_some()
}

/// What the registration is.
pub fn status(cfg: &AppConfig, enabled: bool) -> (r: Status)
    ensures
        r == (Status { enabled, enforced: cfg.autostart_enforced is Some }),
{
    Status { enabled, enforced: enforced(cfg) }
}

/// What a window's page is told of the registration.
pub open spec fn status_for(label: Seq<char>, cfg: AppConfig, enabled: bool) -> Status {
    if label == MAIN_LABEL@ {
        Status { enabled, enforced: cfg.autostart_enforced is Some }
    } else {
        Status { enabled: false, enforced: false }
    }
}

/// The main window's page is told what is so, and whether a policy pins it, whichever way; any
/// other page is told nothing.
pub proof fn main_page_is_told_the_status(label: Seq<char>, cfg: AppConfig, enabled: bool)
    ensures
        status_for("main"@, cfg, enabled).enabled == enabled,
        status_for("main"@, cfg, enabled).enforced <==> cfg.autostart_enforced is Some,
        label != "main"@ ==> !status_for(label, cfg, enabled).enabled && !status_for(
            label,
            cfg,
            enabled,
        ).enforced,
{
}

/// What a page is told of the registration: only the main window's is told anything.
pub fn autostart_status(label: &str, cfg: &AppConfig, enabled: bool) -> (r: Status)
    ensures
        r == status_for(label@, *cfg, enabled),
        r == if label@ == MAIN_LABEL@ {
            Status { enabled, enforced: cfg.autostart_enforced is Some }
        } else {
            Status { enabled: false, enforced: false }
        },
{
    if same_text(label, MAIN_LABEL) {
        status(cfg, enabled)
    } else {
        Status { enabled: false, enforced: false }
    }
}

/// What a request to move the toggle asks for.
#[derive(Clone, Copy, Debug, PartialEq, Eq, Structural)]
pub enum ToggleStep {
    /// Write the registration, and then drop the switch that the user had turned off before:
    /// only a request of theirs may.
    TurnOn,
    TurnOff,
}

/// A step, or an error, by its characters.
pub open spec fn toggle_result(r: Result<ToggleStep, AutostartError>) -> Result<
    ToggleStep,
    AutostartErrorView,
> {
    match r {
        Ok(step) => Ok(step),
        Err(error) => Err(error@),
    }
}

/// What a request to move the toggle asks for, where it is the user's to move.
pub open spec fn toggle_of(cfg: AppConfig, enabled: bool) -> Result<ToggleStep, AutostartErrorView> {
    if cfg.autostart_enforced is Some {
        Err(
            AutostartErrorView {
                kind: "enforced"@,
                message: "start at login is managed by your organization"@,
            },
        )
    } else if enabled {
        Ok(ToggleStep::TurnOn)
    } else {
        Ok(ToggleStep::TurnOff)
    }
}

/// Decide on a request to move the toggle.
pub fn set_autostart(cfg: &AppConfig, enabled: bool) -> (r: Result<ToggleStep, AutostartError>)
    ensures
        toggle_result(r) == toggle_of(*cfg, enabled),
        r is Ok <==> cfg.autostart_enforced is None,
        r is Ok ==> r->Ok_0 == if enabled {
            ToggleStep::TurnOn
        } else {
            ToggleStep::TurnOff
        },
{
    if enforced(cfg) {
        Err(AutostartError::enforced())
    } else if enabled {
        Ok(ToggleStep::TurnOn)
    } else {
        Ok(ToggleStep::TurnOff)
    }
}

/// Decide on a page's request to move the toggle: only the main window's may.
pub fn autostart_set(label: &str, cfg: &AppConfig, enabled: bool) -> (r: Result<
    ToggleStep,
    AutostartError,
>)
    ensures
        toggle_result(r) == if label@ == MAIN_LABEL@ {
            toggle_of(*cfg, enabled)
        } else {
            Err(
                AutostartErrorView {
                    kind: "unavailable"@,
                    message: "start at login can only be changed from the main window"@,
                },
            )
        },
{
    if same_text(label, MAIN_LABEL) {
        set_autostart(cfg, enabled)
    } else {
        Err(
            AutostartError::unavailable(
                "start at login can only be changed from the main window".to_string(),
            ),
        )
    }
}

/// What is left to do once the registration has been written or removed.
#[derive(Clone, Copy, Debug, PartialEq, Eq, Structural)]
pub struct Toggled {
    /// Drop the switch that the user had turned off in the system's own settings.
    pub clear_os_switch: bool,
    /// Store the configuration.
    pub store: bool,
}

/// What is left to do, or an error, by its characters.
pub open spec fn toggled_result(r: Result<Toggled, AutostartError>) -> Result<
    Toggled,
    AutostartErrorView,
> {
    match r {
        Ok(toggled) => Ok(toggled),
        Err(error) => Err(error@),
    }
}

/// What is left to do after a step of the toggle, with what came of writing it.
pub open spec fn toggled_of(
    cfg: AppConfig,
    step: ToggleStep,
    written: Result<(), Seq<char>>,
) -> Result<Toggled, AutostartErrorView> {
    match written {
        Ok(_) => Ok(
            Toggled {
                clear_os_switch: step == ToggleStep::TurnOn,
                store: cfg.autostart_configured != Some(true),
            },
        ),
        Err(why) => Err(AutostartErrorView { kind: "io"@, message: why }),
    }
}

/// The configuration after a step of the toggle: a choice that was carried out answers for the
/// default too, and one that was not leaves everything as it is.
pub open spec fn config_after_toggle(cfg: AppConfig, written: bool) -> AppConfig {
    if written {
        AppConfig { autostart_configured: Some(true), ..cfg }
    } else {
        cfg
    }
}

/// Take in what came of writing a step of the toggle.
pub fn toggled(cfg: &mut AppConfig, step: ToggleStep, written: Result<(), String>) -> (r: Result<
    Toggled,
    AutostartError,
>)
    ensures
        toggled_result(r) == toggled_of(*old(cfg), step, unit_result(written)),
        *final(cfg) == config_after_toggle(*old(cfg), written is Ok),
{
    match written {
        Ok(_) => {
            let store = mark_configured(cfg);
            let clear_os_switch = match step {
                ToggleStep::TurnOn => true,
                ToggleStep::TurnOff => false,
            };
            Ok(Toggled { clear_os_switch, store })
        },
        Err(why) => Err(AutostartError::io(why)),
    }
}

/// The tray's request: the opposite of what is so.
pub fn toggle_from_tray(cfg: &AppConfig, enabled: bool) -> (r: Result<ToggleStep, AutostartError>)
    ensures
        toggle_result(r) == toggle_of(*cfg, !enabled),
{
    set_autostart(cfg, !enabled)
}

/// How the tray's item shows a status: whether it is checked, and whether it can be moved.
pub fn tray_check(status: &Status) -> (r: (bool, bool))
    ensures
        r == (status.enabled, !status.enforced),
{
    (status.enabled, !status.enforced)
}

/// A policy leaves the toggle to nobody: no request moves it, from the tray or from a page.
pub proof fn policy_pins_the_toggle(cfg: AppConfig, enabled: bool)
    requires
        cfg.autostart_enforced is Some,
    ensures
        toggle_of(cfg, enabled) is Err,
        toggle_of(cfg, enabled)->Err_0.kind == "enforced"@,
{
}

/// Without a policy the toggle goes where it is asked to, and nothing else that the configuration
/// holds has a say in it: neither whether the default was applied, nor the hosts, nor updates.
/// Two configurations without a policy are answered alike, and opposite requests oppositely.
pub proof fn free_toggle_goes_where_it_is_asked(cfg: AppConfig, other: AppConfig, enabled: bool)
    requires
        cfg.autostart_enforced is None,
        other.autostart_enforced is None,
    ensures
        toggle_of(cfg, true) == Ok::<ToggleStep, AutostartErrorView>(ToggleStep::TurnOn),
        toggle_of(cfg, false) == Ok::<ToggleStep, AutostartErrorView>(ToggleStep::TurnOff),
        toggle_of(cfg, enabled) == toggle_of(other, enabled),
        toggle_of(cfg, enabled) != toggle_of(cfg, !enabled),
{
}

/// What is left after a step of the toggle. Only turning it on drops the system's own switch.
/// The configuration is stored where it did not say yet that a choice was made, and says so then;
/// nothing else of it changes. A step that could not be written is an error in the words it came
/// with, and changes nothing.
pub proof fn carried_out_toggle_is_recorded(
    cfg: AppConfig,
    step: ToggleStep,
    written: Result<(), Seq<char>>,
)
    ensures
        ({
            let left = toggled_of(cfg, step, written);
            let after = config_after_toggle(cfg, written is Ok);
            &&& written is Ok ==> left is Ok
            &&& written is Ok ==> (left->Ok_0.clear_os_switch <==> step == ToggleStep::TurnOn)
            &&& written is Ok ==> (left->Ok_0.store <==> after.autostart_configured
                != cfg.autostart_configured)
            &&& written is Ok ==> after.autostart_configured == Some(true)
            &&& written is Err ==> left is Err && left->Err_0.kind == "io"@ && left->Err_0.message
                == written->Err_0 && after == cfg
            &&& after == (AppConfig { autostart_configured: after.autostart_configured, ..cfg })
        }),
{
}

/// A policy is converged on in one launch: what it wants registered is, and up to date, and what
/// it does not want is gone. Where it already is so, nothing is done.
pub proof fn policy_is_converged_on(facts: Facts, on: bool)
    requires
        facts.policy == Some(on),
    ensures
        ({
            let after = settled(facts, decision(facts));
            &&& after.registered == on
            &&& on ==> after.current
            &&& decision(facts).action == Action::Nothing <==> facts.registered == on && (on
                ==> facts.current)
            &&& decision(facts).action == Action::Unregister ==> !on
            &&& decision(facts).action == Action::Register ==> on
        }),
{
}

/// Without a policy the first launch registers and records that it did. Later launches repair a
/// registration that is out of date and do nothing else: they never remove one.
pub proof fn default_is_applied_once_and_repaired(facts: Facts)
    requires
        facts.policy is None,
    ensures
        !facts.configured ==> decision(facts) == (Decision {
            action: Action::Register,
            mark_configured: true,
        }),
        facts.configured ==> !decision(facts).mark_configured && (decision(facts).action
            == Action::Register <==> facts.registered && !facts.current),
        decision(facts).action != Action::Unregister,
{
}

/// What Task Manager's record says. No record leaves the entry on. A record whose first byte is
/// odd switches it off, whatever follows; one whose first byte is even leaves it on exactly where
/// the last eight bytes, if there are more than eight, are all zero.
pub proof fn startup_record_switches_off_by_either_sign(bytes: Seq<u8>)
    ensures
        record_approves(None),
        record_approves(Some(Seq::empty())),
        bytes.len() > 0 && bytes[0] % 2 == 1 ==> !record_approves(Some(bytes)),
        0 < bytes.len() <= 8 && bytes[0] % 2 == 0 ==> record_approves(Some(bytes)),
        bytes.len() > 8 && bytes[0] % 2 == 0 ==> (record_approves(Some(bytes)) <==> forall|i: int|
            bytes.len() - 8 <= i < bytes.len() ==> #[trigger] bytes[i] == 0),
{
    if bytes.len() > 8 {
        let tail = bytes.skip(bytes.len() - 8);
        if some_byte_set(tail) {
            let k = choose|k: int| 0 <= k < tail.len() && #[trigger] tail[k] != 0;
            assert(bytes[bytes.len() - 8 + k] == tail[k]);
        } else {
            assert forall|i: int| bytes.len() - 8 <= i < bytes.len() implies #[trigger] bytes[i]
                == 0 by {
                assert(tail[i - (bytes.len() - 8)] == bytes[i]);
            }
        }
    }
}

/// The command that Windows runs names the executable between its quotes, with the flag behind
/// it, so that two executables have two commands.
pub proof fn run_command_names_the_executable(exe: Seq<char>, other: Seq<char>)
    ensures
        run_command(exe)[0] == '"',
        run_command(exe).skip(1).take(exe.len() as int) == exe,
        run_command(exe).skip(1 + exe.len() as int) == "\" --autostart"@,
        run_command(exe) == run_command(other) ==> exe == other,
{
    reveal_strlit("\"");
    reveal_strlit("\" ");
    reveal_strlit("--autostart");
    reveal_strlit("\" --autostart");
    assert(run_command(exe).skip(1).take(exe.len() as int) =~= exe);
    assert(run_command(exe).skip(1 + exe.len() as int) =~= "\" --autostart"@);
    if run_command(exe) == run_command(other) {
        assert(exe.len() == other.len());
        assert(run_command(other).skip(1).take(other.len() as int) =~= other);
    }
}

/// A path goes into a desktop entry exactly where it holds no control character, and a value into
/// a property list exactly where XML can carry every character of it. What goes in reads back.
/// What does not is refused with the first character at fault.
pub proof fn only_what_cannot_be_carried_is_refused(value: Seq<char>, at: int)
    ensures
        exec_arg_or_refusal(value) is Ok <==> forall|i: int|
            0 <= i < value.len() ==> !control(#[trigger] value[i]),
        exec_arg_or_refusal(value) is Ok ==> expanded(
            unquoted(string_decoded(exec_arg_or_refusal(value)->Ok_0)),
        ) == value,
        0 <= at < value.len() && control(value[at]) && (forall|i: int|
            0 <= i < at ==> !control(#[trigger] value[i])) ==> exec_arg_or_refusal(value) == Err::<
            Seq<char>,
            Seq<char>,
        >("path contains U+"@ + hex(value[at] as nat, 4) + ", which a desktop entry cannot carry"@),
        xml_or_refusal(value) is Ok <==> forall|i: int|
            0 <= i < value.len() ==> !unrepresentable(#[trigger] value[i]),
        xml_or_refusal(value) is Ok ==> xml_read(xml_or_refusal(value)->Ok_0) == value,
        0 <= at < value.len() && unrepresentable(value[at]) && (forall|i: int|
            0 <= i < at ==> !unrepresentable(#[trigger] value[i])) ==> xml_or_refusal(value)
            == Err::<Seq<char>, Seq<char>>(
            "value contains U+"@ + hex(value[at] as nat, 4) + ", which XML cannot represent"@,
        ),
{
    let a = |c: char| control(c);
    let b = |c: char| unrepresentable(c);
    lemma_first_of_bound(value, a);
    lemma_first_of_bound(value, b);
    lemma_first_of_hit(value, a);
    lemma_first_of_hit(value, b);
    if first_of(value, a) == value.len() {
        lemma_first_of_none(value, a);
    }
    if first_of(value, b) == value.len() {
        lemma_first_of_none(value, b);
    }
    if 0 <= at < value.len() && control(value[at]) && (forall|i: int|
        0 <= i < at ==> !control(#[trigger] value[i])) {
        lemma_first_of_is(value, a, at);
    }
    if 0 <= at < value.len() && unrepresentable(value[at]) && (forall|i: int|
        0 <= i < at ==> !unrepresentable(#[trigger] value[i])) {
        lemma_first_of_is(value, b, at);
    }
    exec_argument_reads_back(value);
    escaped_xml_reads_back(value);
}

proof fn lemma_first_of_hit(s: Seq<char>, class: spec_fn(char) -> bool)
    ensures
        0 <= first_of(s, class) <= s.len(),
        first_of(s, class) < s.len() ==> class(s[first_of(s, class)]),
    decreases s.len(),
{
    if s.len() > 0 && !class(s[0]) {
        let rest = s.skip(1);
        lemma_first_of_hit(rest, class);
        if first_of(rest, class) < rest.len() {
            assert(rest[first_of(rest, class)] == s[1 + first_of(rest, class)]);
        }
    }
}

/// What a desktop environment finds in the entry: an application under its name, whose command is
/// the executable, once read the way commands are, and the flag.
pub proof fn entry_runs_the_executable(exe: Seq<char>)
    requires
        forall|i: int| 0 <= i < exe.len() ==> !control(#[trigger] exe[i]),
    ensures
        ({
            let path = exec_arg_or_refusal(exe)->Ok_0;
            let found = lines(desktop_entry(path));
            &&& exec_arg_or_refusal(exe) is Ok
            &&& found.len() == 4
            &&& found[0] == "[Desktop Entry]"@
            &&& found[1] == "Type=Application"@
            &&& found[2] == "Name=OpenFrame"@
            &&& found[3] == "Exec=\""@ + path + "\" --autostart"@
            &&& expanded(unquoted(string_decoded(path))) == exe
        }),
{
    lemma_first_of_is(exe, |c: char| control(c), exe.len() as int);
    lemma_escaped_without_controls(exe);
    lemma_entry_lines(escaped_exec_arg(exe));
    exec_argument_reads_back(exe);
    reveal_strlit("\" ");
    reveal_strlit("--autostart");
    reveal_strlit("\" --autostart");
    assert("\" "@ + FLAG@ =~= "\" --autostart"@);
    let path = escaped_exec_arg(exe);
    assert("Exec=\""@ + path + "\" "@ + FLAG@ =~= "Exec=\""@ + path + "\" --autostart"@);
}

/// How a line reads as a key and a value: split at its first equals sign, the key in lower case,
/// and neither with the blanks around it. A line without one is neither.
pub proof fn line_reads_as_key_and_value(key: Seq<char>, value: Seq<char>)
    requires
        !key.contains('='),
    ensures
        pair_of(key) is None,
        pair_of(key.push('=') + value) == Some((lowered(trimmed(key)), trimmed(value))),
{
    let line = key.push('=') + value;
    lemma_first_at(key, '=');
    assert(line[key.len() as int] == '=');
    assert forall|j: int| 0 <= j < key.len() implies line[j] != '=' by {
        assert(line[j] == key[j]);
    }
    lemma_first_at_is(line, '=', key.len() as int);
    assert(line.take(key.len() as int) =~= key);
    assert(line.skip(key.len() as int + 1) =~= value);
}

/// Which lines are the desktop environment's own switch and which of them turn the entry off:
/// `Hidden=true` and `X-GNOME-Autostart-enabled=false`, in any case and with any blanks. Any
/// other value of either leaves it on, and no other line has a say. The lines that are ours are
/// the group's header and the three keys that are written.
pub proof fn switch_is_read_off_its_own_lines(key: Seq<char>, value: Seq<char>)
    requires
        !key.contains('='),
    ensures
        ({
            let line = key.push('=') + value;
            let name = lowered(trimmed(key));
            let said = lowered(trimmed(value));
            &&& switch_line(line) <==> name == "hidden"@ || name == "x-gnome-autostart-enabled"@
            &&& switch_off(line) <==> (name == "hidden"@ && said == "true"@) || (name
                == "x-gnome-autostart-enabled"@ && said == "false"@)
            &&& our_line(line) <==> trimmed(line) == "[Desktop Entry]"@ || name == "type"@ || name
                == "name"@ || name == "exec"@
            &&& !switch_line(key) && !switch_off(key)
            &&& our_line(key) <==> trimmed(key) == "[Desktop Entry]"@
        }),
{
    let line = key.push('=') + value;
    line_reads_as_key_and_value(key, value);
    lemma_pair_of_trimmed(line);
    lemma_pair_of_trimmed(key);
    reveal_strlit("true");
    reveal_strlit("false");
    reveal_strlit("hidden");
    reveal_strlit("x-gnome-autostart-enabled");
    assert("hidden"@.len() == 6 && "x-gnome-autostart-enabled"@.len() == 25);
    assert(lowered("true"@) =~= "true"@);
    assert(lowered("false"@) =~= "false"@);
}

/// An entry is off where one of its lines is the switch turned off, wherever that line stands.
pub proof fn one_line_switches_the_entry_off(before: Seq<char>, line: Seq<char>, after: Seq<char>)
    requires
        before.len() == 0 || before.last() == '\n',
        !line.contains('\n'),
        line.len() > 0 && line.last() != '\r',
    ensures
        os_disabled(before + line.push('\n') + after) <==> os_disabled(before) || switch_off(line)
            || os_disabled(after),
        os_disabled(line) <==> switch_off(line),
        !os_disabled(Seq::empty()),
{
    carriage_return_belongs_to_the_line_end(line, after);
    if switch_off(line) {
        assert(lines(line)[0] == line);
    }
    assert(lines(Seq::empty()) == Seq::<Seq<char>>::empty());
    let own = line.push('\n');
    let whole = before + own + after;
    lemma_lines_of_both(before, own);
    lemma_one_line(line);
    lemma_lines_of_both(before + own, after);
    let a = lines(before);
    let b = lines(after);
    let all = lines(whole);
    assert(all =~= a + seq![line] + b);
    if os_disabled(before) {
        let i = choose|i: int| 0 <= i < a.len() && switch_off(#[trigger] a[i]);
        assert(all[i] == a[i]);
    }
    if switch_off(line) {
        assert(all[a.len() as int] == line);
    }
    if os_disabled(after) {
        let i = choose|i: int| 0 <= i < b.len() && switch_off(#[trigger] b[i]);
        assert(all[a.len() + 1 + i] == b[i]);
    }
    if os_disabled(whole) {
        let i = choose|i: int| 0 <= i < all.len() && switch_off(#[trigger] all[i]);
        if i < a.len() {
            assert(a[i] == all[i]);
        } else if i > a.len() {
            assert(b[i - a.len() - 1] == all[i]);
        }
    }
}

proof fn lemma_tidy(s: Seq<char>)
    requires
        s.len() > 0,
        !white_space(s[0]),
        !white_space(s.last()),
    ensures
        trimmed(s) == s,
{
    lemma_trimmed_is(s, 0, s.len() as int);
    assert(s.subrange(0, s.len() as int) =~= s);
}

#[verifier::rlimit(40)]
proof fn lemma_our_entry_lines(path: Seq<char>)
    requires
        forall|i: int| 0 <= i < path.len() ==> !control(#[trigger] path[i]),
    ensures
        our_lines(lines(desktop_entry(path))) == lines(desktop_entry(path)),
{
    lemma_entry_lines(path);
    let all = lines(desktop_entry(path));
    let last = all[3];
    reveal_strlit("[Desktop Entry]");
    reveal_strlit("Type=Application");
    reveal_strlit("Type");
    reveal_strlit("type");
    reveal_strlit("Application");
    reveal_strlit("Name=OpenFrame");
    reveal_strlit("Name");
    reveal_strlit("name");
    reveal_strlit("OpenFrame");
    reveal_strlit("Exec=\"");
    reveal_strlit("Exec");
    reveal_strlit("exec");
    reveal_strlit("\" ");
    reveal_strlit("--autostart");
    lemma_tidy("[Desktop Entry]"@);
    lemma_tidy("Type=Application"@);
    lemma_tidy("Name=OpenFrame"@);
    lemma_tidy("Type"@);
    lemma_tidy("Name"@);
    lemma_tidy("Exec"@);
    assert(last[0] == "Exec=\""@[0]);
    assert(last.last() == FLAG@[10]);
    lemma_tidy(last);
    assert(lowered("Type"@) =~= "type"@);
    assert(lowered("Name"@) =~= "name"@);
    assert(lowered("Exec"@) =~= "exec"@);
    assert("Type=Application"@ =~= "Type"@.push('=') + "Application"@);
    assert("Name=OpenFrame"@ =~= "Name"@.push('=') + "OpenFrame"@);
    let rest = last.skip(5);
    assert(last =~= "Exec"@.push('=') + rest);
    line_reads_as_key_and_value("Type"@, "Application"@);
    line_reads_as_key_and_value("Name"@, "OpenFrame"@);
    line_reads_as_key_and_value("Exec"@, rest);
    let pred = |line: Seq<char>| our_line(line);
    assert forall|i: int| 0 <= i < all.len() implies pred(#[trigger] all[i]) && trimmed(all[i])
        == all[i] by {
        assert(i == 0 || i == 1 || i == 2 || i == 3);
    }
    lemma_filter_all(all, pred);
    assert(our_lines(all) =~= all);
}

proof fn lemma_filter_all<A>(s: Seq<A>, pred: spec_fn(A) -> bool)
    requires
        forall|i: int| 0 <= i < s.len() ==> pred(#[trigger] s[i]),
    ensures
        s.filter(pred) == s,
    decreases s.len(),
{
    reveal(Seq::filter);
    if s.len() > 0 {
        let front = s.drop_last();
        assert forall|i: int| 0 <= i < front.len() implies pred(#[trigger] front[i]) by {
            assert(front[i] == s[i]);
        }
        lemma_filter_all(front, pred);
        assert(pred(s[s.len() - 1]));
        assert(front.push(s.last()) =~= s);
    }
}

/// An entry that was written for one executable is up to date for it and for no other, so that an
/// application that moved is registered anew. No entry is never up to date.
#[verifier::rlimit(40)]
pub proof fn moved_executable_reads_as_stale(exe: Seq<char>, other: Seq<char>)
    requires
        exec_arg_or_refusal(exe) is Ok,
        exec_arg_or_refusal(other) is Ok,
    ensures
        entry_current(Some(desktop_entry(exec_arg_or_refusal(exe)->Ok_0)), other) <==> exe
            == other,
        !entry_current(None, exe),
{
    let a = escaped_exec_arg(exe);
    let b = escaped_exec_arg(other);
    lemma_first_of_bound(exe, |c: char| control(c));
    lemma_first_of_bound(other, |c: char| control(c));
    lemma_escaped_without_controls(exe);
    lemma_escaped_without_controls(other);
    lemma_our_entry_lines(a);
    lemma_our_entry_lines(b);
    lemma_entry_lines(a);
    lemma_entry_lines(b);
    exec_argument_reads_back(exe);
    exec_argument_reads_back(other);
    if ours(desktop_entry(a)) == ours(desktop_entry(b)) {
        let la = lines(desktop_entry(a));
        let lb = lines(desktop_entry(b));
        assert(la.drop_last() =~= lb.drop_last());
        let front = joined(la.drop_last(), "\n"@);
        let whole = joined(la, "\n"@);
        assert(whole == front + "\n"@ + la[3]);
        assert(whole == front + "\n"@ + lb[3]);
        let n = (front + "\n"@).len() as int;
        assert(whole.skip(n) =~= la[3]);
        assert(whole.skip(n) =~= lb[3]);
        let head = "Exec=\""@;
        let m = head.len() as int;
        assert(la[3].len() == m + a.len() + ("\" "@ + FLAG@).len());
        assert(lb[3].len() == m + b.len() + ("\" "@ + FLAG@).len());
        assert(la[3].subrange(m, m + a.len()) =~= a);
        assert(lb[3].subrange(m, m + b.len()) =~= b);
        assert(a == b);
    }
}

/// A choice of the user's is never undone by the default: once a toggle has been carried out,
/// no launch without a policy registers what it removed, and none changes what it wrote.
pub proof fn choice_outlives_the_default(cfg: AppConfig, step: ToggleStep)
    requires
        cfg.autostart_enforced is None,
    ensures
        ({
            let after = config_after_toggle(cfg, true);
            let on = step == ToggleStep::TurnOn;
            let facts = Facts {
                policy: after.autostart_enforced,
                configured: after.autostart_configured == Some(true),
                registered: on,
                current: on,
            };
            decision(facts).action == Action::Nothing && !decision(facts).mark_configured
        }),
{
}

// ---------------------------------------------------------------------------------------
// The window that an update asks for back.

/// Ask the process that comes back from a restart to show its window, or take the request
/// back. Says whether the configuration is to be stored.
pub fn show_window_after_restart(cfg: &mut AppConfig, wanted: bool) -> (r: bool)
    ensures
        final(cfg).autostart_show_window_next_start == if wanted {
            Some(true)
        } else {
            None
        },
        *final(cfg) == (AppConfig {
            autostart_show_window_next_start: final(cfg).autostart_show_window_next_start,
            ..*old(cfg)
        }),
        r == (final(cfg).autostart_show_window_next_start
            != old(cfg).autostart_show_window_next_start),
{
    let before = cfg.autostart_show_window_next_start;
    cfg.autostart_show_window_next_start = if wanted {
        Some(true)
    } else {
        None
    };
    match before {
        Some(asked) => !wanted || !asked,
        None => wanted,
    }
}

/// Whether a restart asked for a window, taking the request back as it is read. The second
/// answer says whether the configuration is to be stored. A request that is written as `false`
/// is none, and goes all the same.
pub fn take_show_window_request(cfg: &mut AppConfig) -> (r: (bool, bool))
    ensures
        r.0 == (old(cfg).autostart_show_window_next_start == Some(true)),
        r.1 == (old(cfg).autostart_show_window_next_start is Some),
        *final(cfg) == (AppConfig { autostart_show_window_next_start: None, ..*old(cfg) }),
{
    let before = cfg.autostart_show_window_next_start;
    cfg.autostart_show_window_next_start = None;
    match before {
        Some(asked) => (asked, true),
        None => (false, false),
    }
}

/// Which characters a property list cannot carry: the control characters below the space but the
/// tab and the line feed, and the two that are no characters.
pub proof fn property_list_carries_all_but_these(c: char)
    ensures
        unrepresentable(c) <==> (c < ' ' && c != '\t' && c != '\n') || c == '\u{FFFE}' || c
            == '\u{FFFF}',
        ' ' <= c && c < '\u{FFFE}' ==> !unrepresentable(c),
{
}

/// What an entry holds that is written over another: what is written, and behind it the switches
/// of the other, each in its place among them and without the blanks around it. Nothing else of
/// the other stays; and where there is no other, what is written stands alone.
pub proof fn rewrite_keeps_the_switches_and_nothing_else(existing: Seq<char>, content: Seq<char>)
    requires
        content.len() == 0 || content.last() == '\n',
    ensures
        ({
            let kept = lines(existing).filter(|line: Seq<char>| switch_line(line));
            let written = lines(rewritten(Some(existing), content));
            &&& written.len() == lines(content).len() + kept.len()
            &&& forall|i: int|
                0 <= i < lines(content).len() ==> #[trigger] written[i] == lines(content)[i]
            &&& forall|i: int|
                0 <= i < kept.len() ==> written[lines(content).len() + i] == trimmed(
                    #[trigger] kept[i],
                )
        }),
        rewritten(None, content) == content,
{
    lemma_lines_of_both(content, preserved(existing));
    lemma_preserved_lines(existing);
}

} // verus!
