//! Keys, and the resolution of a script's key names into them.
use vstd::prelude::*;
use crate::text::{chars_of, range_equals};

verus! {

/// A key that a script can press.
#[derive(Clone, Copy, Debug, PartialEq, Eq, Structural)]
pub enum Key {
    Alt,
    Backspace,
    CapsLock,
    /// The platform modifier: Command, Super or Windows.
    Meta,
    Control,
    Delete,
    DownArrow,
    End,
    Escape,
    F1,
    F2,
    F3,
    F4,
    F5,
    F6,
    F7,
    F8,
    F9,
    F10,
    F11,
    F12,
    Home,
    LeftArrow,
    /// The Option key, kept apart from `Alt`.
    AltOption,
    PageDown,
    PageUp,
    Return,
    RightArrow,
    Shift,
    Space,
    Tab,
    UpArrow,
    /// The key that types this character on the active keyboard layout.
    Layout(char),
}

/// The key that a lower-cased, brace-delimited name denotes, if any.
pub open spec fn named_key(s: Seq<char>) -> Option<Key> {
    if s == "{alt}"@ {
        Some(Key::Alt)
    } else     if s == "{backspace}"@ {
        Some(Key::Backspace)
    } else     if s == "{capslock}"@ {
        Some(Key::CapsLock)
    } else     if s == "{command}"@ {
        Some(Key::Meta)
    } else     if s == "{control}"@ {
        Some(Key::Control)
    } else     if s == "{delete}"@ {
        Some(Key::Delete)
    } else     if s == "{downarrow}"@ {
        Some(Key::DownArrow)
    } else     if s == "{end}"@ {
        Some(Key::End)
    } else     if s == "{escape}"@ {
        Some(Key::Escape)
    } else     if s == "{f1}"@ {
        Some(Key::F1)
    } else     if s == "{f2}"@ {
        Some(Key::F2)
    } else     if s == "{f3}"@ {
        Some(Key::F3)
    } else     if s == "{f4}"@ {
        Some(Key::F4)
    } else     if s == "{f5}"@ {
        Some(Key::F5)
    } else     if s == "{f6}"@ {
        Some(Key::F6)
    } else     if s == "{f7}"@ {
        Some(Key::F7)
    } else     if s == "{f8}"@ {
        Some(Key::F8)
    } else     if s == "{f9}"@ {
        Some(Key::F9)
    } else     if s == "{f10}"@ {
        Some(Key::F10)
    } else     if s == "{f11}"@ {
        Some(Key::F11)
    } else     if s == "{f12}"@ {
        Some(Key::F12)
    } else     if s == "{home}"@ {
        Some(Key::Home)
    } else     if s == "{leftarrow}"@ {
        Some(Key::LeftArrow)
    } else     if s == "{meta}"@ {
        Some(Key::Meta)
    } else     if s == "{option}"@ {
        Some(Key::AltOption)
    } else     if s == "{pagedown}"@ {
        Some(Key::PageDown)
    } else     if s == "{pageup}"@ {
        Some(Key::PageUp)
    } else     if s == "{return}"@ {
        Some(Key::Return)
    } else     if s == "{rightarrow}"@ {
        Some(Key::RightArrow)
    } else     if s == "{shift}"@ {
        Some(Key::Shift)
    } else     if s == "{space}"@ {
        Some(Key::Space)
    } else     if s == "{super}"@ {
        Some(Key::Meta)
    } else     if s == "{tab}"@ {
        Some(Key::Tab)
    } else     if s == "{uparrow}"@ {
        Some(Key::UpArrow)
    } else     if s == "{windows}"@ {
        Some(Key::Meta)
    } else {
        None
    }
}

/// The key for a key argument: `folded` is the argument lower-cased, `raw` the
/// argument as written. A symbolic name wins; otherwise the first character
/// of `raw` stands for itself; an empty argument has no key.
pub open spec fn key_spec(folded: Seq<char>, raw: Seq<char>) -> Option<Key> {
    match named_key(folded) {
        Some(k) => Some(k),
        None => if raw.len() > 0 {
            Some(Key::Layout(raw[0]))
        } else {
            None
        },
    }
}

/// What lower-casing a string gives.
pub uninterp spec fn lower_of(s: Seq<char>) -> Seq<char>;

/// Relies on `str::to_lowercase`: a new string that depends on the characters
/// of `s` alone, and is empty when `s` is.
#[verifier::external_body]
fn lowercase(s: &str) -> (r: String)
    ensures
        r@ == lower_of(s@),
        s@.len() == 0 ==> r@.len() == 0,
{
    s.to_lowercase()
}

/// The key that a lower-cased symbolic name such as `{tab}` denotes.
pub fn named_key_of(s: &str) -> (r: Option<Key>)
    ensures
        r == named_key(s@),
{
    let cs = chars_of(s);
    let n = cs.len();
    assert(cs@.subrange(0, n as int) =~= s@);
    if range_equals(&cs, 0, n, "{alt}") {
        Some(Key::Alt)
    } else     if range_equals(&cs, 0, n, "{backspace}") {
        Some(Key::Backspace)
    } else     if range_equals(&cs, 0, n, "{capslock}") {
        Some(Key::CapsLock)
    } else     if range_equals(&cs, 0, n, "{command}") {
        Some(Key::Meta)
    } else     if range_equals(&cs, 0, n, "{control}") {
        Some(Key::Control)
    } else     if range_equals(&cs, 0, n, "{delete}") {
        Some(Key::Delete)
    } else     if range_equals(&cs, 0, n, "{downarrow}") {
        Some(Key::DownArrow)
    } else     if range_equals(&cs, 0, n, "{end}") {
        Some(Key::End)
    } else     if range_equals(&cs, 0, n, "{escape}") {
        Some(Key::Escape)
    } else     if range_equals(&cs, 0, n, "{f1}") {
        Some(Key::F1)
    } else     if range_equals(&cs, 0, n, "{f2}") {
        Some(Key::F2)
    } else     if range_equals(&cs, 0, n, "{f3}") {
        Some(Key::F3)
    } else     if range_equals(&cs, 0, n, "{f4}") {
        Some(Key::F4)
    } else     if range_equals(&cs, 0, n, "{f5}") {
        Some(Key::F5)
    } else     if range_equals(&cs, 0, n, "{f6}") {
        Some(Key::F6)
    } else     if range_equals(&cs, 0, n, "{f7}") {
        Some(Key::F7)
    } else     if range_equals(&cs, 0, n, "{f8}") {
        Some(Key::F8)
    } else     if range_equals(&cs, 0, n, "{f9}") {
        Some(Key::F9)
    } else     if range_equals(&cs, 0, n, "{f10}") {
        Some(Key::F10)
    } else     if range_equals(&cs, 0, n, "{f11}") {
        Some(Key::F11)
    } else     if range_equals(&cs, 0, n, "{f12}") {
        Some(Key::F12)
    } else     if range_equals(&cs, 0, n, "{home}") {
        Some(Key::Home)
    } else     if range_equals(&cs, 0, n, "{leftarrow}") {
        Some(Key::LeftArrow)
    } else     if range_equals(&cs, 0, n, "{meta}") {
        Some(Key::Meta)
    } else     if range_equals(&cs, 0, n, "{option}") {
        Some(Key::AltOption)
    } else     if range_equals(&cs, 0, n, "{pagedown}") {
        Some(Key::PageDown)
    } else     if range_equals(&cs, 0, n, "{pageup}") {
        Some(Key::PageUp)
    } else     if range_equals(&cs, 0, n, "{return}") {
        Some(Key::Return)
    } else     if range_equals(&cs, 0, n, "{rightarrow}") {
        Some(Key::RightArrow)
    } else     if range_equals(&cs, 0, n, "{shift}") {
        Some(Key::Shift)
    } else     if range_equals(&cs, 0, n, "{space}") {
        Some(Key::Space)
    } else     if range_equals(&cs, 0, n, "{super}") {
        Some(Key::Meta)
    } else     if range_equals(&cs, 0, n, "{tab}") {
        Some(Key::Tab)
    } else     if range_equals(&cs, 0, n, "{uparrow}") {
        Some(Key::UpArrow)
    } else     if range_equals(&cs, 0, n, "{windows}") {
        Some(Key::Meta)
    } else {
        None
    }
}

/// No symbolic name is empty.
pub proof fn lemma_no_empty_name()
    ensures
        named_key(Seq::empty()) is None,
{
    let e = Seq::<char>::empty();
    assert(named_key(e) is None) by {
        reveal_strlit("{alt}");
        assert("{alt}"@.len() > 0);
        reveal_strlit("{backspace}");
        assert("{backspace}"@.len() > 0);
        reveal_strlit("{capslock}");
        assert("{capslock}"@.len() > 0);
        reveal_strlit("{command}");
        assert("{command}"@.len() > 0);
        reveal_strlit("{control}");
        assert("{control}"@.len() > 0);
        reveal_strlit("{delete}");
        assert("{delete}"@.len() > 0);
        reveal_strlit("{downarrow}");
        assert("{downarrow}"@.len() > 0);
        reveal_strlit("{end}");
        assert("{end}"@.len() > 0);
        reveal_strlit("{escape}");
        assert("{escape}"@.len() > 0);
        reveal_strlit("{f1}");
        assert("{f1}"@.len() > 0);
        reveal_strlit("{f2}");
        assert("{f2}"@.len() > 0);
        reveal_strlit("{f3}");
        assert("{f3}"@.len() > 0);
        reveal_strlit("{f4}");
        assert("{f4}"@.len() > 0);
        reveal_strlit("{f5}");
        assert("{f5}"@.len() > 0);
        reveal_strlit("{f6}");
        assert("{f6}"@.len() > 0);
        reveal_strlit("{f7}");
        assert("{f7}"@.len() > 0);
        reveal_strlit("{f8}");
        assert("{f8}"@.len() > 0);
        reveal_strlit("{f9}");
        assert("{f9}"@.len() > 0);
        reveal_strlit("{f10}");
        assert("{f10}"@.len() > 0);
        reveal_strlit("{f11}");
        assert("{f11}"@.len() > 0);
        reveal_strlit("{f12}");
        assert("{f12}"@.len() > 0);
        reveal_strlit("{home}");
        assert("{home}"@.len() > 0);
        reveal_strlit("{leftarrow}");
        assert("{leftarrow}"@.len() > 0);
        reveal_strlit("{meta}");
        assert("{meta}"@.len() > 0);
        reveal_strlit("{option}");
        assert("{option}"@.len() > 0);
        reveal_strlit("{pagedown}");
        assert("{pagedown}"@.len() > 0);
        reveal_strlit("{pageup}");
        assert("{pageup}"@.len() > 0);
        reveal_strlit("{return}");
        assert("{return}"@.len() > 0);
        reveal_strlit("{rightarrow}");
        assert("{rightarrow}"@.len() > 0);
        reveal_strlit("{shift}");
        assert("{shift}"@.len() > 0);
        reveal_strlit("{space}");
        assert("{space}"@.len() > 0);
        reveal_strlit("{super}");
        assert("{super}"@.len() > 0);
        reveal_strlit("{tab}");
        assert("{tab}"@.len() > 0);
        reveal_strlit("{uparrow}");
        assert("{uparrow}"@.len() > 0);
        reveal_strlit("{windows}");
        assert("{windows}"@.len() > 0);
    }
}

/// Resolution of a key argument whose lower-cased form is already known.
pub fn key_from_folded(folded: &str, raw: &str) -> (r: Option<Key>)
    ensures
        r == key_spec(folded@, raw@),
{
    match named_key_of(folded) {
        Some(k) => Some(k),
        None => if raw.unicode_len() > 0 {
            Some(Key::Layout(raw.get_char(0)))
        } else {
            None
        },
    }
}

/// Resolves a key argument: symbolic names match without regard to case.
pub fn resolve_key(arg: &str) -> (r: Option<Key>)
    ensures
        r == key_spec(lower_of(arg@), arg@),
        arg@.len() == 0 ==> r is None,
{
    let folded = lowercase(arg);
    let r = key_from_folded(folded.as_str(), arg);
    proof {
        if arg@.len() == 0 {
            assert(folded@ =~= Seq::<char>::empty());
            lemma_no_empty_name();
        }
    }
    r
}

} // verus!
