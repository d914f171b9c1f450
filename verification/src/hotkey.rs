//! Hotkey bindings: the per-OS fallback chain and the parser for binding
//! strings such as `"super+k"` or `"ctrl+alt+space"`.
use vstd::prelude::*;

use crate::error::KnightError;
use crate::platform::Platform;
use crate::text::{
    append_chars, append_str, ascii_lower, owned, ascii_upper, chars_of, eq_str, split_chars, split_on, string_from_chars,
    to_ascii_lowercase, to_ascii_uppercase, trim, trim_chars, views,
};

verus! {

/// The non-modifier key of a binding.
#[derive(Debug, Clone, Copy, PartialEq, Eq, Structural)]
pub enum KeyCode {
    Space,
    Enter,
    Escape,
    Tab,
    Backspace,
    Semicolon,
    Slash,
    Backslash,
    Period,
    Comma,
    Quote,
    F1,
    F2,
    F3,
    F4,
    F5,
    F6,
    F7,
    F8,
    F9,
    F10,
    F11,
    F12,
    /// A letter key, named by its upper-case ASCII letter `'A'..='Z'`.
    Letter(char),
    /// A digit key, named by its ASCII digit `'0'..='9'`.
    Digit(char),
}

/// The set of modifier keys held with the key.
#[derive(Debug, Clone, Copy, PartialEq, Eq, Structural)]
pub struct Modifiers {
    pub control: bool,
    pub alt: bool,
    pub shift: bool,
    pub super_key: bool,
}

/// A parsed binding: modifiers plus one key.
#[derive(Debug, Clone, Copy, PartialEq, Eq, Structural)]
pub struct HotKey {
    pub mods: Modifiers,
    pub key: KeyCode,
}

/// One of the four modifier keys.
#[derive(Debug, Clone, Copy, PartialEq, Eq, Structural)]
pub enum ModifierKind {
    Control,
    Alt,
    Shift,
    Super,
}

impl Modifiers {
    pub open spec fn spec_none() -> Modifiers {
        Modifiers { control: false, alt: false, shift: false, super_key: false }
    }

    pub open spec fn spec_with(self, m: ModifierKind) -> Modifiers {
        match m {
            ModifierKind::Control => Modifiers { control: true, ..self },
            ModifierKind::Alt => Modifiers { alt: true, ..self },
            ModifierKind::Shift => Modifiers { shift: true, ..self },
            ModifierKind::Super => Modifiers { super_key: true, ..self },
        }
    }

    /// No modifier held.
    pub fn none() -> (r: Modifiers)
        ensures
            r == Modifiers::spec_none(),
    {
        Modifiers { control: false, alt: false, shift: false, super_key: false }
    }

    /// This set with `m` added.
    pub fn with(self, m: ModifierKind) -> (r: Modifiers)
        ensures
            r == self.spec_with(m),
    {
        match m {
            ModifierKind::Control => Modifiers { control: true, ..self },
            ModifierKind::Alt => Modifiers { alt: true, ..self },
            ModifierKind::Shift => Modifiers { shift: true, ..self },
            ModifierKind::Super => Modifiers { super_key: true, ..self },
        }
    }
}

/// The bindings tried in order until one registers.
pub open spec fn fallback_seq(platform: Platform) -> Seq<Seq<char>> {
    if platform == Platform::Macos {
        seq![
            "cmd+shift+k"@,
            "cmd+shift+semicolon"@,
            "cmd+shift+slash"@,
            "cmd+option+space"@,
        ]
    } else {
        seq![
            "super+k"@,
            "super+semicolon"@,
            "super+slash"@,
            "super+backslash"@,
            "ctrl+alt+space"@,
        ]
    }
}

/// Default fallback chain for `platform`, tried in order until one registers.
pub fn fallback_chain(platform: Platform) -> (r: Vec<&'static str>)
    ensures
        r@.len() == fallback_seq(platform).len(),
        forall|i: int| 0 <= i < r@.len() ==> #[trigger] r@[i]@ == fallback_seq(platform)[i],
{
    if platform == Platform::Macos {
        vec!["cmd+shift+k", "cmd+shift+semicolon", "cmd+shift+slash", "cmd+option+space"]
    } else {
        vec!["super+k", "super+semicolon", "super+slash", "super+backslash", "ctrl+alt+space"]
    }
}

/// The first binding of the fallback chain.
pub fn default_binding(platform: Platform) -> (r: &'static str)
    ensures
        r@ == fallback_seq(platform)[0],
{
    let chain = fallback_chain(platform);
    chain[0]
}

/// Which modifier a lower-cased token names, if any.
pub open spec fn modifier_of(low: Seq<char>) -> Option<ModifierKind> {
    if low == "ctrl"@ || low == "control"@ {
        Some(ModifierKind::Control)
    } else if low == "alt"@ || low == "option"@ {
        Some(ModifierKind::Alt)
    } else if low == "shift"@ {
        Some(ModifierKind::Shift)
    } else if low == "super"@ || low == "win"@ || low == "windows"@ || low == "meta"@ || low
        == "cmd"@ || low == "command"@ {
        Some(ModifierKind::Super)
    } else {
        None
    }
}

/// Which key an upper-cased token names, if any.
pub open spec fn key_of(up: Seq<char>) -> Option<KeyCode> {
    if up == "SPACE"@ {
        Some(KeyCode::Space)
    } else if up == "ENTER"@ || up == "RETURN"@ {
        Some(KeyCode::Enter)
    } else if up == "ESC"@ || up == "ESCAPE"@ {
        Some(KeyCode::Escape)
    } else if up == "TAB"@ {
        Some(KeyCode::Tab)
    } else if up == "BACKSPACE"@ {
        Some(KeyCode::Backspace)
    } else if up == "SEMICOLON"@ || up == ";"@ {
        Some(KeyCode::Semicolon)
    } else if up == "SLASH"@ || up == "/"@ {
        Some(KeyCode::Slash)
    } else if up == "BACKSLASH"@ || up == "\\"@ {
        Some(KeyCode::Backslash)
    } else if up == "PERIOD"@ || up == "."@ {
        Some(KeyCode::Period)
    } else if up == "COMMA"@ || up == ","@ {
        Some(KeyCode::Comma)
    } else if up == "QUOTE"@ || up == "'"@ {
        Some(KeyCode::Quote)
    } else if up == "F1"@ {
        Some(KeyCode::F1)
    } else if up == "F2"@ {
        Some(KeyCode::F2)
    } else if up == "F3"@ {
        Some(KeyCode::F3)
    } else if up == "F4"@ {
        Some(KeyCode::F4)
    } else if up == "F5"@ {
        Some(KeyCode::F5)
    } else if up == "F6"@ {
        Some(KeyCode::F6)
    } else if up == "F7"@ {
        Some(KeyCode::F7)
    } else if up == "F8"@ {
        Some(KeyCode::F8)
    } else if up == "F9"@ {
        Some(KeyCode::F9)
    } else if up == "F10"@ {
        Some(KeyCode::F10)
    } else if up == "F11"@ {
        Some(KeyCode::F11)
    } else if up == "F12"@ {
        Some(KeyCode::F12)
    } else if up.len() == 1 && 'A' <= up[0] && up[0] <= 'Z' {
        Some(KeyCode::Letter(up[0]))
    } else if up.len() == 1 && '0' <= up[0] && up[0] <= '9' {
        Some(KeyCode::Digit(up[0]))
    } else {
        None
    }
}

/// The trimmed, non-blank tokens of a list of pieces.
pub open spec fn nonblank_trimmed(pieces: Seq<Seq<char>>) -> Seq<Seq<char>>
    decreases pieces.len(),
{
    if pieces.len() == 0 {
        Seq::empty()
    } else {
        let prev = nonblank_trimmed(pieces.drop_last());
        if trim(pieces.last()).len() > 0 {
            prev.push(trim(pieces.last()))
        } else {
            prev
        }
    }
}

/// The tokens of a binding string: `+`-separated, trimmed, blanks dropped.
pub open spec fn binding_tokens(binding: Seq<char>) -> Seq<Seq<char>> {
    nonblank_trimmed(split_on(binding, '+'))
}

/// The state reached after reading `toks` in order: the modifiers seen and
/// the last key seen, or the message of the first unknown token.
pub open spec fn read_tokens(toks: Seq<Seq<char>>) -> Result<(Modifiers, Option<KeyCode>), Seq<char>>
    decreases toks.len(),
{
    if toks.len() == 0 {
        Ok((Modifiers::spec_none(), None))
    } else {
        match read_tokens(toks.drop_last()) {
            Err(msg) => Err(msg),
            Ok((mods, key)) => {
                let low = toks.last().map_values(|c: char| ascii_lower(c));
                match modifier_of(low) {
                    Some(m) => Ok((mods.spec_with(m), key)),
                    None => match key_of(low.map_values(|c: char| ascii_upper(c))) {
                        Some(k) => Ok((mods, Some(k))),
                        None => Err("unknown key in binding: "@ + low),
                    },
                }
            },
        }
    }
}

/// What parsing `binding` yields: the hot key, or the error message.
pub open spec fn parse_spec(binding: Seq<char>) -> Result<HotKey, Seq<char>> {
    let toks = binding_tokens(binding);
    if toks.len() == 0 {
        Err("empty binding: "@ + binding)
    } else {
        match read_tokens(toks) {
            Err(msg) => Err(msg),
            Ok((mods, None)) => Err("no key in binding: "@ + binding),
            Ok((mods, Some(key))) => Ok(HotKey { mods, key }),
        }
    }
}

/// Which modifier a lower-cased token names, if any.
pub fn modifier_token(low: &[char]) -> (r: Option<ModifierKind>)
    ensures
        r == modifier_of(low@),
{
    if eq_str(low, "ctrl") || eq_str(low, "control") {
        Some(ModifierKind::Control)
    } else if eq_str(low, "alt") || eq_str(low, "option") {
        Some(ModifierKind::Alt)
    } else if eq_str(low, "shift") {
        Some(ModifierKind::Shift)
    } else if eq_str(low, "super") || eq_str(low, "win") || eq_str(low, "windows") || eq_str(
        low,
        "meta",
    ) || eq_str(low, "cmd") || eq_str(low, "command") {
        Some(ModifierKind::Super)
    } else {
        None
    }
}

/// Which key a token names, if any. The token is matched case-insensitively.
pub fn parse_key(s: &[char]) -> (r: Option<KeyCode>)
    ensures
        r == key_of(s@.map_values(|c: char| ascii_upper(c))),
{
    let v = to_ascii_uppercase(s);
    let up = v.as_slice();
    if eq_str(up, "SPACE") {
        Some(KeyCode::Space)
    } else if eq_str(up, "ENTER") || eq_str(up, "RETURN") {
        Some(KeyCode::Enter)
    } else if eq_str(up, "ESC") || eq_str(up, "ESCAPE") {
        Some(KeyCode::Escape)
    } else if eq_str(up, "TAB") {
        Some(KeyCode::Tab)
    } else if eq_str(up, "BACKSPACE") {
        Some(KeyCode::Backspace)
    } else if eq_str(up, "SEMICOLON") || eq_str(up, ";") {
        Some(KeyCode::Semicolon)
    } else if eq_str(up, "SLASH") || eq_str(up, "/") {
        Some(KeyCode::Slash)
    } else if eq_str(up, "BACKSLASH") || eq_str(up, "\\") {
        Some(KeyCode::Backslash)
    } else if eq_str(up, "PERIOD") || eq_str(up, ".") {
        Some(KeyCode::Period)
    } else if eq_str(up, "COMMA") || eq_str(up, ",") {
        Some(KeyCode::Comma)
    } else if eq_str(up, "QUOTE") || eq_str(up, "'") {
        Some(KeyCode::Quote)
    } else if eq_str(up, "F1") {
        Some(KeyCode::F1)
    } else if eq_str(up, "F2") {
        Some(KeyCode::F2)
    } else if eq_str(up, "F3") {
        Some(KeyCode::F3)
    } else if eq_str(up, "F4") {
        Some(KeyCode::F4)
    } else if eq_str(up, "F5") {
        Some(KeyCode::F5)
    } else if eq_str(up, "F6") {
        Some(KeyCode::F6)
    } else if eq_str(up, "F7") {
        Some(KeyCode::F7)
    } else if eq_str(up, "F8") {
        Some(KeyCode::F8)
    } else if eq_str(up, "F9") {
        Some(KeyCode::F9)
    } else if eq_str(up, "F10") {
        Some(KeyCode::F10)
    } else if eq_str(up, "F11") {
        Some(KeyCode::F11)
    } else if eq_str(up, "F12") {
        Some(KeyCode::F12)
    } else if up.len() == 1 && 'A' <= up[0] && up[0] <= 'Z' {
        Some(KeyCode::Letter(up[0]))
    } else if up.len() == 1 && '0' <= up[0] && up[0] <= '9' {
        Some(KeyCode::Digit(up[0]))
    } else {
        None
    }
}

/// The trimmed, non-blank tokens of a binding string.
pub fn tokens_of(binding: &str) -> (r: Vec<Vec<char>>)
    ensures
        views(r@) == binding_tokens(binding@),
{
    let chars = chars_of(binding);
    let pieces = split_chars(chars.as_slice(), '+');
    let mut toks: Vec<Vec<char>> = Vec::new();
    let mut i: usize = 0;
    while i < pieces.len()
        invariant
            i <= pieces.len(),
            views(pieces@) == split_on(binding@, '+'),
            views(toks@) == nonblank_trimmed(views(pieces@).take(i as int)),
        decreases pieces.len() - i,
    {
        let t = trim_chars(pieces[i].as_slice());
        let ghost pre = views(pieces@).take(i + 1);
        assert(pre.drop_last() =~= views(pieces@).take(i as int));
        assert(pre.last() == pieces@[i as int]@);
        if t.len() > 0 {
            toks.push(t);
            assert(views(toks@) =~= nonblank_trimmed(pre));
        }
        i = i + 1;
    }
    assert(views(pieces@).take(pieces.len() as int) =~= views(pieces@));
    toks
}

/// `prefix` followed by the characters of `s`, as an owned string.
pub fn message(prefix: &str, s: &[char]) -> (r: String)
    ensures
        r@ == prefix@ + s@,
{
    let mut m = chars_of(prefix);
    append_chars(&mut m, s);
    string_from_chars(m)
}

/// Parses a binding string like `"super+k"` or `"ctrl+alt+space"`.
///
/// The string is split at `+`; each piece is trimmed and blank pieces are
/// dropped. Tokens are read in order, case-insensitively: modifier names add
/// a modifier, any other token must name a key (the last key wins).
pub fn parse(binding: &str) -> (r: Result<HotKey, KnightError>)
    ensures
        r is Ok <==> parse_spec(binding@) is Ok,
        r is Ok ==> r->Ok_0 == parse_spec(binding@)->Ok_0,
        r is Err ==> (r->Err_0 matches KnightError::Hotkey(m) && m@ == parse_spec(binding@)->Err_0),
{
    let toks = tokens_of(binding);
    if toks.len() == 0 {
        let b = chars_of(binding);
        return Err(KnightError::Hotkey(message("empty binding: ", b.as_slice())));
    }
    let mut mods = Modifiers::none();
    let mut key: Option<KeyCode> = None;
    let mut i: usize = 0;
    while i < toks.len()
        invariant
            i <= toks.len(),
            views(toks@) == binding_tokens(binding@),
            read_tokens(views(toks@).take(i as int)) == Ok::<(Modifiers, Option<KeyCode>), Seq<char>>((mods, key)),
        decreases toks.len() - i,
    {
        let ghost pre = views(toks@).take(i + 1);
        assert(pre.drop_last() =~= views(toks@).take(i as int));
        assert(pre.last() == toks@[i as int]@);
        let low = to_ascii_lowercase(toks[i].as_slice());
        match modifier_token(low.as_slice()) {
            Some(m) => {
                mods = mods.with(m);
            },
            None => {
                assert(low@.map_values(|c: char| ascii_upper(c)) =~= low@.map_values(|c: char| ascii_upper(c)));
                match parse_key(low.as_slice()) {
                    Some(k) => {
                        key = Some(k);
                    },
                    None => {
                        proof {
                            lemma_read_tokens_err_persists(views(toks@), i as int + 1);
                        }
                        return Err(KnightError::Hotkey(message("unknown key in binding: ", low.as_slice())));
                    },
                }
            },
        }
        i = i + 1;
    }
    assert(views(toks@).take(toks.len() as int) =~= views(toks@));
    match key {
        Some(k) => Ok(HotKey { mods, key: k }),
        None => {
            let b = chars_of(binding);
            Err(KnightError::Hotkey(message("no key in binding: ", b.as_slice())))
        },
    }
}

/// Once reading fails, reading more tokens keeps the same error.
pub proof fn lemma_read_tokens_err_persists(toks: Seq<Seq<char>>, i: int)
    requires
        0 <= i <= toks.len(),
        read_tokens(toks.take(i)) is Err,
    ensures
        read_tokens(toks) == read_tokens(toks.take(i)),
    decreases toks.len() - i,
{
    if i < toks.len() {
        let t = toks.take(i + 1);
        assert(t.drop_last() =~= toks.take(i));
        lemma_read_tokens_err_persists(toks, i + 1);
    } else {
        assert(toks.take(i) =~= toks);
    }
}


/// What the registration loop should do next.
#[derive(Debug)]
pub enum RegistrationStep {
    /// Register `hotkey`, which was parsed from `binding`.
    Try { binding: String, hotkey: HotKey },
    /// Every candidate failed; report this error.
    GiveUp(KnightError),
}

/// The walk over candidate bindings: the requested one first, then the
/// platform's fallback chain. Candidates that do not parse are skipped; the
/// last failure is remembered for the final error.
pub struct FallbackWalk {
    candidates: Vec<String>,
    next: usize,
    last_err: Vec<char>,
}

/// Where the walk stops when looking for the next candidate from `i`: the
/// index of the first candidate that parses (or the number of candidates),
/// and the last failure message seen on the way.
pub open spec fn scan(c: Seq<Seq<char>>, i: int, err: Seq<char>) -> (int, Seq<char>)
    decreases c.len() - i,
{
    if i < 0 || i >= c.len() {
        (c.len() as int, err)
    } else {
        match parse_spec(c[i]) {
            Ok(_) => (i, err),
            Err(m) => scan(c, i + 1, "hotkey error: "@ + m),
        }
    }
}

pub proof fn lemma_scan_bounds(c: Seq<Seq<char>>, i: int, err: Seq<char>)
    requires
        0 <= i <= c.len(),
    ensures
        i <= scan(c, i, err).0 <= c.len(),
        scan(c, i, err).0 < c.len() ==> parse_spec(c[scan(c, i, err).0]) is Ok,
    decreases c.len() - i,
{
    if i < c.len() {
        match parse_spec(c[i]) {
            Ok(_) => {},
            Err(m) => {
                lemma_scan_bounds(c, i + 1, "hotkey error: "@ + m);
            },
        }
    }
}

impl FallbackWalk {
    pub closed spec fn candidates(&self) -> Seq<Seq<char>> {
        views_of_strings(self.candidates@)
    }

    pub closed spec fn position(&self) -> int {
        self.next as int
    }

    pub closed spec fn last_error(&self) -> Seq<char> {
        self.last_err@
    }

    pub closed spec fn wf(&self) -> bool {
        self.next <= self.candidates@.len()
    }

    /// Starts the walk with `requested`, then the fallback chain of `platform`.
    pub fn start(requested: &str, platform: Platform) -> (r: FallbackWalk)
        ensures
            r.wf(),
            r.candidates() == seq![requested@] + fallback_seq(platform),
            r.position() == 0,
            r.last_error() == Seq::<char>::empty(),
    {
        let mut candidates: Vec<String> = Vec::new();
        candidates.push(owned(requested));
        let chain = fallback_chain(platform);
        let mut i: usize = 0;
        while i < chain.len()
            invariant
                i <= chain.len(),
                chain@.len() == fallback_seq(platform).len(),
                forall|k: int| 0 <= k < chain@.len() ==> #[trigger] chain@[k]@ == fallback_seq(platform)[k],
                views_of_strings(candidates@) == seq![requested@] + fallback_seq(platform).take(i as int),
            decreases chain.len() - i,
        {
            let ghost before = candidates@;
            let c = owned(chain[i]);
            assert(c@ == fallback_seq(platform)[i as int]);
            candidates.push(c);
            assert(views_of_strings(candidates@) =~= views_of_strings(before).push(c@));
            assert(fallback_seq(platform).take(i + 1) =~= fallback_seq(platform).take(i as int).push(fallback_seq(platform)[i as int]));
            assert(views_of_strings(candidates@) =~= seq![requested@] + fallback_seq(platform).take(i + 1));
            i = i + 1;
        }
        assert(fallback_seq(platform).take(chain.len() as int) =~= fallback_seq(platform));
        FallbackWalk { candidates, next: 0, last_err: Vec::new() }
    }

    /// The next step: try the next candidate that parses, or give up when
    /// none is left.
    pub fn next_step(&mut self) -> (r: RegistrationStep)
        requires
            old(self).wf(),
        ensures
            final(self).wf(),
            final(self).candidates() == old(self).candidates(),
            ({
                let (j, e) = scan(old(self).candidates(), old(self).position(), old(self).last_error());
                &&& final(self).last_error() == e
                &&& j < old(self).candidates().len() ==> {
                    &&& final(self).position() == j + 1
                    &&& r matches RegistrationStep::Try { binding, hotkey }
                    &&& binding@ == old(self).candidates()[j]
                    &&& hotkey == parse_spec(old(self).candidates()[j])->Ok_0
                }
                &&& j >= old(self).candidates().len() ==> {
                    &&& final(self).position() == old(self).candidates().len()
                    &&& r matches RegistrationStep::GiveUp(KnightError::Hotkey(m))
                    &&& m@ == "all fallback bindings failed: "@ + e
                }
            }),
    {
        proof {
            lemma_scan_bounds(self.candidates(), self.position(), self.last_error());
        }
        while self.next < self.candidates.len()
            invariant
                self.wf(),
                self.candidates() == old(self).candidates(),
                scan(self.candidates(), self.position(), self.last_error()) == scan(
                    old(self).candidates(),
                    old(self).position(),
                    old(self).last_error(),
                ),
            decreases self.candidates@.len() - self.next,
        {
            let i = self.next;
            assert(self.candidates@[i as int]@ == self.candidates()[i as int]);
            match parse(self.candidates[i].as_str()) {
                Ok(hk) => {
                    let binding = self.candidates[i].clone();
                    self.next = i + 1;
                    return RegistrationStep::Try { binding, hotkey: hk };
                },
                Err(e) => {
                    let text = e.message();
                    self.last_err = chars_of(text.as_str());
                    self.next = i + 1;
                },
            }
        }
        let mut m = chars_of("all fallback bindings failed: ");
        append_chars(&mut m, self.last_err.as_slice());
        RegistrationStep::GiveUp(KnightError::Hotkey(string_from_chars(m)))
    }

    /// Records that registering the candidate last handed out failed with
    /// `reason`.
    pub fn register_failed(&mut self, reason: &str)
        requires
            old(self).wf(),
            old(self).position() > 0,
        ensures
            final(self).wf(),
            final(self).candidates() == old(self).candidates(),
            final(self).position() == old(self).position(),
            final(self).last_error() == old(self).candidates()[old(self).position() - 1] + ": "@
                + reason@,
    {
        let i = self.next - 1;
        assert(self.candidates@[i as int]@ == self.candidates()[i as int]);
        let mut m = chars_of(self.candidates[i].as_str());
        append_str(&mut m, ": ");
        append_str(&mut m, reason);
        self.last_err = m;
    }
}

/// The views of a sequence of owned strings.
pub open spec fn views_of_strings(v: Seq<String>) -> Seq<Seq<char>> {
    v.map_values(|s: String| s@)
}

} // verus!

verus! {

/// A token lower-cased as the parser reads it.
pub open spec fn lowered(t: Seq<char>) -> Seq<char> {
    t.map_values(|c: char| ascii_lower(c))
}

/// Which modifier names lead to which modifier: `ctrl`/`control` to
/// Control, `alt`/`option` to Alt, `shift` to Shift, and
/// `super`/`win`/`windows`/`meta`/`cmd`/`command` to Super; nothing else
/// names a modifier.
proof fn lemma_modifier_names(low: Seq<char>)
    ensures
        modifier_of(low) == Some(ModifierKind::Control) <==> (low == "ctrl"@ || low == "control"@),
        modifier_of(low) == Some(ModifierKind::Alt) <==> (low == "alt"@ || low == "option"@),
        modifier_of(low) == Some(ModifierKind::Shift) <==> low == "shift"@,
        modifier_of(low) == Some(ModifierKind::Super) <==> (low == "super"@ || low == "win"@ || low
            == "windows"@ || low == "meta"@ || low == "cmd"@ || low == "command"@),
{
    reveal_strlit("ctrl");
    reveal_strlit("control");
    reveal_strlit("alt");
    reveal_strlit("option");
    reveal_strlit("shift");
    reveal_strlit("super");
    reveal_strlit("win");
    reveal_strlit("windows");
    reveal_strlit("meta");
    reveal_strlit("cmd");
    reveal_strlit("command");
    assert("alt"@[0] != "win"@[0] && "alt"@[0] != "cmd"@[0] && "win"@[0] != "cmd"@[0]);
    assert("ctrl"@[0] != "meta"@[0]);
    assert("shift"@[1] != "super"@[1]);
    assert("control"@[0] != "windows"@[0] && "control"@[2] != "command"@[2] && "windows"@[0]
        != "command"@[0]);
    assert("super"@ != "shift"@);
    assert("win"@ != "alt"@);
    assert("cmd"@ != "alt"@);
    assert("meta"@ != "ctrl"@);
    assert("windows"@ != "control"@);
    assert("command"@ != "control"@);
    assert("super"@.len() == 5 && "option"@.len() == 6 && "alt"@.len() == 3 && "ctrl"@.len() == 4
        && "control"@.len() == 7 && "shift"@.len() == 5);
}

/// Reading tokens sets a modifier exactly when one of the tokens names it.
proof fn lemma_read_tokens_modifiers(toks: Seq<Seq<char>>)
    ensures
        read_tokens(toks) matches Ok((mods, _)) ==> {
            &&& mods.control <==> exists|i: int|
                0 <= i < toks.len() && (#[trigger] lowered(toks[i]) == "ctrl"@ || lowered(toks[i])
                    == "control"@)
            &&& mods.alt <==> exists|i: int|
                0 <= i < toks.len() && (#[trigger] lowered(toks[i]) == "alt"@ || lowered(toks[i])
                    == "option"@)
            &&& mods.shift <==> exists|i: int|
                0 <= i < toks.len() && #[trigger] lowered(toks[i]) == "shift"@
            &&& mods.super_key <==> exists|i: int|
                0 <= i < toks.len() && (#[trigger] lowered(toks[i]) == "super"@ || lowered(toks[i])
                    == "win"@ || lowered(toks[i]) == "windows"@ || lowered(toks[i]) == "meta"@
                    || lowered(toks[i]) == "cmd"@ || lowered(toks[i]) == "command"@)
        },
    decreases toks.len(),
{
    if toks.len() > 0 {
        let p = toks.drop_last();
        lemma_read_tokens_modifiers(p);
        let low = lowered(toks.last());
        lemma_modifier_names(low);
        assert(lowered(toks[toks.len() - 1]) == low);
        assert forall|i: int| 0 <= i < p.len() implies #[trigger] lowered(p[i]) == lowered(toks[i]) by {
            assert(p[i] == toks[i]);
        }
        if let Ok((mods, key)) = read_tokens(toks) {
            let (m0, k0) = read_tokens(p)->Ok_0;
            assert(read_tokens(p) is Ok);
            assert(low == toks.last().map_values(|c: char| ascii_lower(c)));
            // Each field: set now exactly when it was set before or the last
            // token names it.
            let ctl = |t: Seq<char>| t == "ctrl"@ || t == "control"@;
            let alt = |t: Seq<char>| t == "alt"@ || t == "option"@;
            let sh = |t: Seq<char>| t == "shift"@;
            let sup = |t: Seq<char>|
                t == "super"@ || t == "win"@ || t == "windows"@ || t == "meta"@ || t == "cmd"@ || t
                    == "command"@;
            assert(mods.control == (m0.control || ctl(low)));
            assert(mods.alt == (m0.alt || alt(low)));
            assert(mods.shift == (m0.shift || sh(low)));
            assert(mods.super_key == (m0.super_key || sup(low)));
            assert((exists|i: int| 0 <= i < toks.len() && ctl(#[trigger] lowered(toks[i]))) <==> ((
            exists|i: int| 0 <= i < p.len() && ctl(#[trigger] lowered(p[i]))) || ctl(low))) by {
                if exists|i: int| 0 <= i < toks.len() && ctl(#[trigger] lowered(toks[i])) {
                    let i = choose|i: int| 0 <= i < toks.len() && ctl(#[trigger] lowered(toks[i]));
                    if i < p.len() {
                        assert(ctl(lowered(p[i])));
                    }
                }
                if exists|i: int| 0 <= i < p.len() && ctl(#[trigger] lowered(p[i])) {
                    let i = choose|i: int| 0 <= i < p.len() && ctl(#[trigger] lowered(p[i]));
                    assert(ctl(lowered(toks[i])));
                }
                if ctl(low) {
                    assert(ctl(lowered(toks[toks.len() - 1])));
                }
            }
            assert((exists|i: int| 0 <= i < toks.len() && alt(#[trigger] lowered(toks[i]))) <==> ((
            exists|i: int| 0 <= i < p.len() && alt(#[trigger] lowered(p[i]))) || alt(low))) by {
                if exists|i: int| 0 <= i < toks.len() && alt(#[trigger] lowered(toks[i])) {
                    let i = choose|i: int| 0 <= i < toks.len() && alt(#[trigger] lowered(toks[i]));
                    if i < p.len() {
                        assert(alt(lowered(p[i])));
                    }
                }
                if exists|i: int| 0 <= i < p.len() && alt(#[trigger] lowered(p[i])) {
                    let i = choose|i: int| 0 <= i < p.len() && alt(#[trigger] lowered(p[i]));
                    assert(alt(lowered(toks[i])));
                }
                if alt(low) {
                    assert(alt(lowered(toks[toks.len() - 1])));
                }
            }
            assert((exists|i: int| 0 <= i < toks.len() && sh(#[trigger] lowered(toks[i]))) <==> ((
            exists|i: int| 0 <= i < p.len() && sh(#[trigger] lowered(p[i]))) || sh(low))) by {
                if exists|i: int| 0 <= i < toks.len() && sh(#[trigger] lowered(toks[i])) {
                    let i = choose|i: int| 0 <= i < toks.len() && sh(#[trigger] lowered(toks[i]));
                    if i < p.len() {
                        assert(sh(lowered(p[i])));
                    }
                }
                if exists|i: int| 0 <= i < p.len() && sh(#[trigger] lowered(p[i])) {
                    let i = choose|i: int| 0 <= i < p.len() && sh(#[trigger] lowered(p[i]));
                    assert(sh(lowered(toks[i])));
                }
                if sh(low) {
                    assert(sh(lowered(toks[toks.len() - 1])));
                }
            }
            assert((exists|i: int| 0 <= i < toks.len() && sup(#[trigger] lowered(toks[i]))) <==> ((
            exists|i: int| 0 <= i < p.len() && sup(#[trigger] lowered(p[i]))) || sup(low))) by {
                if exists|i: int| 0 <= i < toks.len() && sup(#[trigger] lowered(toks[i])) {
                    let i = choose|i: int| 0 <= i < toks.len() && sup(#[trigger] lowered(toks[i]));
                    if i < p.len() {
                        assert(sup(lowered(p[i])));
                    }
                }
                if exists|i: int| 0 <= i < p.len() && sup(#[trigger] lowered(p[i])) {
                    let i = choose|i: int| 0 <= i < p.len() && sup(#[trigger] lowered(p[i]));
                    assert(sup(lowered(toks[i])));
                }
                if sup(low) {
                    assert(sup(lowered(toks[toks.len() - 1])));
                }
            }
        }
    }
}

/// A parsed binding holds exactly the modifiers that its tokens name, in
/// any ASCII case: `ctrl`/`control` give Control, `alt`/`option` give Alt,
/// `shift` gives Shift, and `super`/`win`/`windows`/`meta`/`cmd`/`command`
/// give Super. So `cmd+option+space` holds Super and Alt.
pub proof fn lemma_parse_modifiers(binding: Seq<char>)
    ensures
        parse_spec(binding) matches Ok(hk) ==> {
            let toks = binding_tokens(binding);
            &&& hk.mods.control <==> exists|i: int|
                0 <= i < toks.len() && (#[trigger] lowered(toks[i]) == "ctrl"@ || lowered(toks[i])
                    == "control"@)
            &&& hk.mods.alt <==> exists|i: int|
                0 <= i < toks.len() && (#[trigger] lowered(toks[i]) == "alt"@ || lowered(toks[i])
                    == "option"@)
            &&& hk.mods.shift <==> exists|i: int|
                0 <= i < toks.len() && #[trigger] lowered(toks[i]) == "shift"@
            &&& hk.mods.super_key <==> exists|i: int|
                0 <= i < toks.len() && (#[trigger] lowered(toks[i]) == "super"@ || lowered(toks[i])
                    == "win"@ || lowered(toks[i]) == "windows"@ || lowered(toks[i]) == "meta"@
                    || lowered(toks[i]) == "cmd"@ || lowered(toks[i]) == "command"@)
        },
{
    lemma_read_tokens_modifiers(binding_tokens(binding));
}

} // verus!

verus! {

/// A one-character key token names the key on the label: a letter, in
/// either case, is that letter's key, and a digit is that digit's key.
pub proof fn lemma_single_character_keys(t: Seq<char>)
    requires
        t.len() == 1,
    ensures
        ('a' <= t[0] <= 'z' || 'A' <= t[0] <= 'Z') ==> key_of(t.map_values(|c: char| ascii_upper(c)))
            == Some(KeyCode::Letter(ascii_upper(t[0]))) && 'A' <= ascii_upper(t[0]) <= 'Z' && (
        ascii_upper(t[0]) == t[0] || ascii_upper(t[0]) as u32 + 32 == t[0] as u32),
        '0' <= t[0] <= '9' ==> key_of(t.map_values(|c: char| ascii_upper(c))) == Some(
            KeyCode::Digit(t[0]),
        ),
{
    let up = t.map_values(|c: char| ascii_upper(c));
    assert(up.len() == 1 && up[0] == ascii_upper(t[0]));
    reveal_strlit("SPACE");
    reveal_strlit("ENTER");
    reveal_strlit("RETURN");
    reveal_strlit("ESC");
    reveal_strlit("ESCAPE");
    reveal_strlit("TAB");
    reveal_strlit("BACKSPACE");
    reveal_strlit("SEMICOLON");
    reveal_strlit(";");
    reveal_strlit("SLASH");
    reveal_strlit("/");
    reveal_strlit("BACKSLASH");
    reveal_strlit("\\");
    reveal_strlit("PERIOD");
    reveal_strlit(".");
    reveal_strlit("COMMA");
    reveal_strlit(",");
    reveal_strlit("QUOTE");
    reveal_strlit("'");
    reveal_strlit("F1");
    reveal_strlit("F2");
    reveal_strlit("F3");
    reveal_strlit("F4");
    reveal_strlit("F5");
    reveal_strlit("F6");
    reveal_strlit("F7");
    reveal_strlit("F8");
    reveal_strlit("F9");
    reveal_strlit("F10");
    reveal_strlit("F11");
    reveal_strlit("F12");
    if 'a' <= t[0] <= 'z' || 'A' <= t[0] <= 'Z' || '0' <= t[0] <= '9' {
        assert(up != ";"@ && up != "/"@ && up != "\\"@ && up != "."@ && up != ","@ && up != "'"@) by {
            assert(";"@[0] == ';' && "/"@[0] == '/' && "\\"@[0] == '\\' && "."@[0] == '.' && ","@[0]
                == ',' && "'"@[0] == '\'');
        }
    }
}

} // verus!
