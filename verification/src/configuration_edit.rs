//! Typing a number into a plugin parameter: the text field of the
//! configuration editor and what each key does to it.
use vstd::prelude::*;
use crate::document_wire::text_is;
use crate::text::push_char;

verus! {

/// The most bytes the text field holds, and the most characters one key or paste adds.
pub const INPUT_LIMIT: usize = 64;

/// A number being typed for one parameter of one configuration site.
#[derive(Clone, Debug)]
pub struct ConfigurationInput {
    pub site: String,
    pub usage: Option<String>,
    pub parameter: String,
    pub host: bool,
    pub text: String,
    pub select_all: bool,
}

/// A key press: the key's name, the text it types, and the held modifiers.
#[derive(Clone, Debug)]
pub struct KeyPress {
    pub key: String,
    pub key_char: Option<String>,
    pub platform: bool,
    pub control: bool,
    pub alt: bool,
}

/// What a key press did to the field.
#[derive(Debug)]
pub enum KeyOutcome {
    /// The editor is not the target: the key goes elsewhere.
    Ignored,
    /// The key edited the field (or was swallowed by it).
    Handled,
    /// Enter: the typed input leaves the field to be parsed and submitted; when
    /// it does not parse as a finite number, it goes back into the field.
    Submit(ConfigurationInput),
    /// The shortcut for paste: the clipboard's text is to be given to `paste`.
    Paste,
}

/// Bytes of the UTF-8 encoding of a character.
pub open spec fn utf8_width(c: char) -> nat {
    if (c as u32) < 0x80 { 1 } else if (c as u32) < 0x800 { 2 } else if (c as u32) < 0x10000 { 3 } else { 4 }
}

/// The longest prefix of `s` whose UTF-8 encoding fits in `budget` bytes.
pub open spec fn fitting_prefix(s: Seq<char>, budget: nat) -> Seq<char>
    decreases s.len(),
{
    if s.len() == 0 || utf8_width(s[0]) > budget {
        Seq::empty()
    } else {
        seq![s[0]] + fitting_prefix(s.drop_first(), (budget - utf8_width(s[0])) as nat)
    }
}

/// A character a number may contain.
pub open spec fn numeric_char(c: char) -> bool {
    ('0' <= c && c <= '9') || c == '.' || c == 'e' || c == 'E' || c == '+' || c == '-'
}

/// The numeric characters of `s`, in order.
pub open spec fn numeric_chars(s: Seq<char>) -> Seq<char>
    decreases s.len(),
{
    if s.len() == 0 {
        Seq::empty()
    } else if numeric_char(s.last()) {
        numeric_chars(s.drop_last()).push(s.last())
    } else {
        numeric_chars(s.drop_last())
    }
}

/// The text that typing or pasting `added` leaves: it replaces a selected
/// text, and at most the first 64 of its characters are taken.
pub open spec fn inserted(text: Seq<char>, select_all: bool, added: Seq<char>) -> Seq<char> {
    (if select_all { Seq::empty() } else { text }) + (if added.len() > INPUT_LIMIT { added.take(INPUT_LIMIT as int) } else { added })
}

/// The text after backspace: a selected text is cleared, else the last character goes.
pub open spec fn backspaced(text: Seq<char>, select_all: bool) -> Seq<char> {
    if select_all { Seq::empty() } else if text.len() > 0 { text.drop_last() } else { text }
}

/// A command shortcut: the platform or control modifier with `letter`.
pub open spec fn shortcut(key: KeyPress, letter: Seq<char>) -> bool {
    (key.platform || key.control) && key.key@ == letter
}

/// The field after a key, when the key edits it.
pub open spec fn edited(input: ConfigurationInput, key: KeyPress) -> (Seq<char>, bool) {
    if shortcut(key, "a"@) {
        (input.text@, true)
    } else if key.key@ == "backspace"@ {
        (backspaced(input.text@, input.select_all), false)
    } else if key.platform || key.control || key.alt {
        (input.text@, input.select_all)
    } else {
        match key.key_char {
            Some(typed) => (inserted(input.text@, input.select_all, numeric_chars(typed@)), false),
            None => (input.text@, input.select_all),
        }
    }
}

/// The outcome of a key and the field it leaves, for an open editor in front
/// with a field: Escape drops the field, Enter submits it, the paste shortcut
/// asks for the clipboard, other keys edit the text, which is then cut to 64
/// bytes of UTF-8.
pub open spec fn keyed(field: Option<ConfigurationInput>, target: bool, key: KeyPress, outcome: KeyOutcome, after: Option<ConfigurationInput>) -> bool {
    match field {
        Some(input) if target => if key.key@ == "escape"@ {
            outcome is Handled && after is None
        } else if key.key@ == "enter"@ {
            outcome == KeyOutcome::Submit(input) && after is None
        } else if shortcut(key, "v"@) {
            outcome is Paste && after == Some(input)
        } else {
            let (text, select_all) = edited(input, key);
            &&& outcome is Handled
            &&& after matches Some(a)
            &&& a.text@ == fitting_prefix(text, INPUT_LIMIT as nat)
            &&& a.select_all == select_all
            &&& a.site == input.site && a.usage == input.usage && a.parameter == input.parameter && a.host == input.host
        },
        _ => outcome is Ignored && after == field,
    }
}

/// Bytes of the UTF-8 encoding of a text.
pub open spec fn utf8_len(s: Seq<char>) -> nat
    decreases s.len(),
{
    if s.len() == 0 { 0 } else { utf8_width(s[0]) + utf8_len(s.drop_first()) }
}

proof fn lemma_utf8_len_push(s: Seq<char>, c: char)
    ensures
        utf8_len(s.push(c)) == utf8_len(s) + utf8_width(c),
    decreases s.len(),
{
    if s.len() > 0 {
        assert(s.push(c).drop_first() =~= s.drop_first().push(c));
        assert(s.push(c)[0] == s[0]);
        lemma_utf8_len_push(s.drop_first(), c);
    } else {
        assert(s.push(c).drop_first() =~= Seq::<char>::empty());
        assert(utf8_len(Seq::<char>::empty()) == 0);
        assert(s.push(c)[0] == c);
    }
}

/// A text that fits the budget is kept whole.
pub proof fn lemma_fitting_keeps_what_fits(s: Seq<char>, budget: nat)
    requires
        utf8_len(s) <= budget,
    ensures
        fitting_prefix(s, budget) == s,
    decreases s.len(),
{
    if s.len() > 0 {
        lemma_fitting_keeps_what_fits(s.drop_first(), (budget - utf8_width(s[0])) as nat);
        assert(seq![s[0]] + s.drop_first() =~= s);
    }
}

/// Typing one character with no modifier into a field with room: a digit,
/// '.', 'e', 'E', '+' or '-' is appended (replacing a selected text), and any
/// other character is dropped, leaving the text as it was (or cleared, when
/// it was selected). So typing 4, 4, 0 gives 440.
pub proof fn lemma_typing_one_character(input: ConfigurationInput, key: KeyPress, c: char, outcome: KeyOutcome, after: Option<ConfigurationInput>)
    requires
        keyed(Some(input), true, key, outcome, after),
        key.key_char matches Some(t) && t@ == seq![c],
        !key.platform,
        !key.control,
        !key.alt,
        key.key@ != "escape"@,
        key.key@ != "enter"@,
        key.key@ != "backspace"@,
        utf8_len(input.text@) < INPUT_LIMIT,
    ensures
        outcome is Handled,
        after matches Some(a) && !a.select_all && a.text@ == ({
            let base = if input.select_all { Seq::<char>::empty() } else { input.text@ };
            if (c >= '0' && c <= '9') || c == '.' || c == 'e' || c == 'E' || c == '+' || c == '-' {
                base.push(c)
            } else {
                base
            }
        }),
{
    let base = if input.select_all { Seq::<char>::empty() } else { input.text@ };
    let one = seq![c];
    assert(one.drop_last() =~= Seq::<char>::empty());
    assert(one.last() == c);
    assert(numeric_chars(Seq::<char>::empty()) =~= Seq::<char>::empty());
    let kept = numeric_chars(one);
    assert(inserted(input.text@, input.select_all, kept) =~= base + kept);
    if numeric_char(c) {
        assert(kept =~= seq![c]);
        assert(base + kept =~= base.push(c));
        lemma_utf8_len_push(base, c);
        lemma_fitting_keeps_what_fits(base.push(c), INPUT_LIMIT as nat);
    } else {
        assert(kept =~= Seq::<char>::empty());
        assert(base + kept =~= base);
        lemma_fitting_keeps_what_fits(base, INPUT_LIMIT as nat);
    }
}

fn width(c: char) -> (w: usize)
    ensures
        w == utf8_width(c),
{
    let code = c as u32;
    if code < 0x80 { 1 } else if code < 0x800 { 2 } else if code < 0x10000 { 3 } else { 4 }
}

/// The longest prefix of `text` within 64 bytes of UTF-8.
fn fitted(text: &String) -> (fit: String)
    ensures
        fit@ == fitting_prefix(text@, INPUT_LIMIT as nat),
{
    let s = text.as_str();
    let n = s.unicode_len();
    let mut fit = String::new();
    let mut budget: usize = INPUT_LIMIT;
    let mut i: usize = 0;
    assert(text@.skip(0) =~= text@);
    assert(fit@ + fitting_prefix(text@.skip(0), INPUT_LIMIT as nat) =~= fitting_prefix(text@, INPUT_LIMIT as nat));
    while i < n
        invariant
            i <= n,
            n == text@.len(),
            s@ == text@,
            budget <= INPUT_LIMIT,
            fit@ + fitting_prefix(text@.skip(i as int), budget as nat) == fitting_prefix(text@, INPUT_LIMIT as nat),
        decreases n - i,
    {
        let c = s.get_char(i);
        let w = width(c);
        assert(text@.skip(i as int)[0] == c);
        if w > budget {
            assert(fitting_prefix(text@.skip(i as int), budget as nat) == Seq::<char>::empty());
            assert(fit@ + Seq::<char>::empty() =~= fit@);
            return fit;
        }
        assert(text@.skip(i as int).drop_first() =~= text@.skip(i + 1));
        push_char(&mut fit, c);
        budget = budget - w;
        i = i + 1;
        assert(fit@ + fitting_prefix(text@.skip(i as int), budget as nat) =~= fitting_prefix(text@, INPUT_LIMIT as nat));
    }
    assert(text@.skip(n as int) =~= Seq::<char>::empty());
    assert(fit@ + Seq::<char>::empty() =~= fit@);
    fit
}

/// The numeric characters of `typed`.
fn numeric(typed: &String) -> (kept: String)
    ensures
        kept@ == numeric_chars(typed@),
{
    let s = typed.as_str();
    let n = s.unicode_len();
    let mut kept = String::new();
    let mut i: usize = 0;
    while i < n
        invariant
            i <= n,
            n == typed@.len(),
            s@ == typed@,
            kept@ == numeric_chars(typed@.take(i as int)),
        decreases n - i,
    {
        let c = s.get_char(i);
        assert(typed@.take(i + 1).drop_last() =~= typed@.take(i as int));
        assert(typed@.take(i + 1).last() == c);
        if ('0' <= c && c <= '9') || c == '.' || c == 'e' || c == 'E' || c == '+' || c == '-' {
            push_char(&mut kept, c);
        }
        i = i + 1;
    }
    assert(typed@.take(n as int) =~= typed@);
    kept
}

/// The text with `added` typed or pasted into it.
fn insert_text(text: &String, select_all: bool, added: &String) -> (result: String)
    ensures
        result@ == inserted(text@, select_all, added@),
{
    let mut result = if select_all { String::new() } else { text.clone() };
    let ghost start = result@;
    let s = added.as_str();
    let n = s.unicode_len();
    let limit = if n > INPUT_LIMIT { INPUT_LIMIT } else { n };
    let mut i: usize = 0;
    while i < limit
        invariant
            i <= limit,
            limit <= n,
            n == added@.len(),
            s@ == added@,
            result@ == start + added@.take(i as int),
        decreases limit - i,
    {
        let c = s.get_char(i);
        push_char(&mut result, c);
        i = i + 1;
        assert(result@ =~= start + added@.take(i as int));
    }
    if n <= INPUT_LIMIT {
        assert(added@.take(n as int) =~= added@);
    }
    result
}

/// Applies a key to the configuration editor's field. `target` tells that the
/// editor is open and in front.
pub fn configuration_key(field: &mut Option<ConfigurationInput>, target: bool, key: &KeyPress) -> (outcome: KeyOutcome)
    ensures
        keyed(*old(field), target, *key, outcome, *final(field)),
{
    proof {
        reveal_strlit("escape");
        reveal_strlit("enter");
        reveal_strlit("a");
        reveal_strlit("v");
        reveal_strlit("backspace");
    }
    if !target || field.is_none() {
        return KeyOutcome::Ignored;
    }
    if text_is(&key.key, "escape") {
        *field = None;
        return KeyOutcome::Handled;
    }
    if text_is(&key.key, "enter") {
        let input = field.take().unwrap();
        return KeyOutcome::Submit(input);
    }
    let command = key.platform || key.control;
    if command && text_is(&key.key, "v") {
        return KeyOutcome::Paste;
    }
    let mut input = field.take().unwrap();
    let ghost before = input;
    if command && text_is(&key.key, "a") {
        input.select_all = true;
    } else if text_is(&key.key, "backspace") {
        if input.select_all {
            input.text = String::new();
        } else {
            let mut chars = input.text.clone();
            let n = chars.as_str().unicode_len();
            if n > 0 {
                let s = input.text.as_str();
                let mut shorter = String::new();
                let mut i: usize = 0;
                while i + 1 < n
                    invariant
                        i < n,
                        n == before.text@.len(),
                        s@ == before.text@,
                        shorter@ == before.text@.take(i as int),
                    decreases n - i,
                {
                    push_char(&mut shorter, s.get_char(i));
                    i = i + 1;
                    assert(shorter@ =~= before.text@.take(i as int));
                }
                assert(shorter@ =~= before.text@.drop_last());
                chars = shorter;
            }
            input.text = chars;
        }
        input.select_all = false;
    } else if key.platform || key.control || key.alt {
    } else if let Some(typed) = &key.key_char {
        let kept = numeric(typed);
        input.text = insert_text(&input.text, input.select_all, &kept);
        input.select_all = false;
    }
    input.text = fitted(&input.text);
    *field = Some(input);
    KeyOutcome::Handled
}

/// Pastes the clipboard's text, when there is one, into the field; the field
/// is then cut to 64 bytes.
pub fn paste(input: &mut ConfigurationInput, clipboard: Option<String>)
    ensures
        final(input).text@ == fitting_prefix(
            match clipboard {
                Some(t) => inserted(old(input).text@, old(input).select_all, t@),
                None => old(input).text@,
            },
            INPUT_LIMIT as nat,
        ),
        final(input).select_all == (clipboard is None && old(input).select_all),
        final(input).site == old(input).site,
        final(input).usage == old(input).usage,
        final(input).parameter == old(input).parameter,
        final(input).host == old(input).host,
{
    if let Some(text) = clipboard {
        input.text = insert_text(&input.text, input.select_all, &text);
        input.select_all = false;
    }
    input.text = fitted(&input.text);
}

} // verus!
