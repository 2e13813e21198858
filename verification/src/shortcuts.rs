//! The shortcut registry: every combination this application announces, once,
//! and the frontier every combination a user chooses goes through.
//!
//! Combinations are read by `global_hotkey`'s own parser, the one the
//! operating system registration goes through. What comes back is held here
//! as plain values: the modifier bits and the name of the physical key.
use vstd::prelude::*;
use vstd::string::*;
use crate::shortcut::ShortcutStatus;
use crate::text::{chars_of, push_char, push_range, starts_with_text, same_chars, same_text};
use crate::timing::texts;
use crate::settings::renderable;

verus! {

/// Where a shortcut belongs in the in-app help.
#[derive(Debug, Clone, Copy, PartialEq, Eq, Structural)]
pub enum ShortcutCategory {
    /// Taking a picture of the screen.
    Capture,
}

/// One shortcut, as the registry states it.
#[derive(Debug, Clone, PartialEq)]
pub struct ShortcutEntry {
    /// Stable identifier, never shown.
    pub id: &'static str,
    /// The combination in the parser's syntax.
    pub accelerator: &'static str,
    /// The same combination as the interface draws it, one chip per key.
    pub keys: Vec<&'static str>,
    /// Key into the interface's string catalogue: what this shortcut does.
    pub description_key: &'static str,
    /// The help page heading this entry files itself under.
    pub category: ShortcutCategory,
}

/// Identifier of the shortcut that starts a region capture.
pub const CAPTURE_REGION: &'static str = "capture-region";

/// The chips of a list of static strings, as characters.
pub open spec fn static_texts(keys: Seq<&'static str>) -> Seq<Seq<char>> {
    keys.map_values(|key: &'static str| key@)
}

/// What the registry's capture row says.
pub open spec fn is_capture_row(entry: ShortcutEntry) -> bool {
    &&& entry.id@ == CAPTURE_REGION@
    &&& entry.accelerator@ == "Ctrl+Shift+Digit2"@
    &&& static_texts(entry.keys@) == seq!["Ctrl"@, "Maj"@, "2"@]
    &&& entry.description_key@ == "captureRegion"@
    &&& entry.category == ShortcutCategory::Capture
}

/// Every shortcut this application announces and registers: one row today,
/// the capture, `Ctrl+Shift+Digit2`, drawn Ctrl, Maj, 2.
pub fn registry() -> (entries: Vec<ShortcutEntry>)
    ensures
        entries@.len() == 1,
        is_capture_row(entries@[0]),
{
    let keys: Vec<&'static str> = vec!["Ctrl", "Maj", "2"];
    let row = ShortcutEntry {
        id: CAPTURE_REGION,
        accelerator: "Ctrl+Shift+Digit2",
        keys,
        description_key: "captureRegion",
        category: ShortcutCategory::Capture,
    };
    assert(static_texts(row.keys@) =~= seq!["Ctrl"@, "Maj"@, "2"@]);
    vec![row]
}

/// The entry with this id, if the registry has one.
pub fn entry(id: &str) -> (found: Option<ShortcutEntry>)
    ensures
        match found {
            Some(e) => id@ == CAPTURE_REGION@ && is_capture_row(e),
            None => id@ != CAPTURE_REGION@,
        },
{
    let mut entries = registry();
    let candidate = entries.remove(0);
    if same_text(candidate.id, id) {
        Some(candidate)
    } else {
        None
    }
}

/// The modifier bit `keyboard-types` gives `Modifiers::ALT`.
pub const MOD_ALT: u32 = 0x1;

/// The modifier bit `keyboard-types` gives `Modifiers::CONTROL`.
pub const MOD_CONTROL: u32 = 0x8;

/// The modifier bit `keyboard-types` gives `Modifiers::SHIFT`.
pub const MOD_SHIFT: u32 = 0x200;

/// The modifier bit `keyboard-types` gives `Modifiers::SUPER`.
pub const MOD_SUPER: u32 = 0x2000;

/// The four modifiers this application draws, together.
pub const KNOWN_MODIFIERS: u32 = 0x2209;

/// A combination as the parser reads it: the modifier bits, and the W3C name
/// of the physical key (`Digit2`, `KeyA`, `F5`, `Escape`).
#[derive(Debug, Clone, PartialEq, Eq)]
pub struct Shortcut {
    pub mods: u32,
    pub key: String,
}

/// What `global_hotkey` reads out of an accelerator: the modifier bits and the
/// key's name, or nothing when it refuses the text.
pub uninterp spec fn hotkey_reading(accelerator: Seq<char>) -> Option<(u32, Seq<char>)>;

/// Whether `c` is an ASCII letter or digit.
pub open spec fn is_ascii_alnum(c: char) -> bool {
    ('0' <= c && c <= '9') || ('a' <= c && c <= 'z') || ('A' <= c && c <= 'Z')
}

/// Whether `name` is a function key's name: `F` then one or more ASCII digits.
pub open spec fn is_function_key(name: Seq<char>) -> bool {
    &&& name.len() > 1
    &&& name[0] == 'F'
    &&& forall|i: int| 1 <= i < name.len() ==> '0' <= #[trigger] name[i] && name[i] <= '9'
}

/// The one character after a prefix, when it is a single ASCII letter or digit.
pub open spec fn single_after(name: Seq<char>, prefix: Seq<char>) -> Option<Seq<char>> {
    let rest = name.subrange(prefix.len() as int, name.len() as int);
    if rest.len() == 1 && is_ascii_alnum(rest[0]) {
        Some(rest)
    } else {
        None
    }
}

/// The cap a key is drawn with, or `None` for one nobody chose: `Digit2` is
/// drawn `2`, `KeyA` is drawn `A`, a function key as it is named, and `Escape`
/// as the French cap `Échap`.
pub open spec fn cap_of(name: Seq<char>) -> Option<Seq<char>> {
    if "Digit"@.is_prefix_of(name) {
        single_after(name, "Digit"@)
    } else if "Key"@.is_prefix_of(name) {
        single_after(name, "Key"@)
    } else if name == "Escape"@ {
        Some("Échap"@)
    } else if is_function_key(name) {
        Some(name)
    } else {
        None
    }
}

/// A modifier's token, followed by `+`, when its bit is set.
pub open spec fn token_if(mods: u32, bit: u32, token: Seq<char>) -> Seq<char> {
    if mods & bit != 0 {
        token + "+"@
    } else {
        Seq::empty()
    }
}

/// A modifier's cap, when its bit is set.
pub open spec fn cap_if(mods: u32, bit: u32, label: Seq<char>) -> Seq<Seq<char>> {
    if mods & bit != 0 {
        seq![label]
    } else {
        Seq::empty()
    }
}

/// The one spelling this application stores for a combination: its modifiers
/// in the order Ctrl, Shift, Alt, Super, then the key's name.
pub open spec fn canonical(mods: u32, key: Seq<char>) -> Seq<char> {
    token_if(mods, MOD_CONTROL, "Ctrl"@) + token_if(mods, MOD_SHIFT, "Shift"@) + token_if(mods, MOD_ALT, "Alt"@)
        + token_if(mods, MOD_SUPER, "Super"@) + key
}

/// The chips drawn for a combination, in the same order, French caps.
pub open spec fn caps(mods: u32, cap: Seq<char>) -> Seq<Seq<char>> {
    cap_if(mods, MOD_CONTROL, "Ctrl"@) + cap_if(mods, MOD_SHIFT, "Maj"@) + cap_if(mods, MOD_ALT, "Alt"@)
        + cap_if(mods, MOD_SUPER, "Windows"@) + seq![cap]
}

pub open spec fn parse_failure_text(accelerator: Seq<char>, reason: Seq<char>) -> Seq<char> {
    "`"@ + accelerator + "` is not a valid shortcut: "@ + reason
}

pub open spec fn no_modifier_text(input: Seq<char>) -> Seq<char> {
    "`"@ + input
        + "` carries no modifier. Registered globally, that key would be taken from every other application on this machine"@
}

pub open spec fn undrawn_modifier_text(input: Seq<char>) -> Seq<char> {
    "`"@ + input + "` carries a modifier this application does not draw, so it would be registered and never shown"@
}

pub open spec fn no_cap_text(input: Seq<char>, key: Seq<char>) -> Seq<char> {
    "`"@ + input + "` ends on `"@ + key
        + "`, a key this application has no cap for. It would be registered and drawn under a name invented on the spot"@
}

/// What this application makes of a combination the parser read: refused
/// without a modifier, with a modifier it does not draw, or with a key it has
/// no cap for; otherwise its canonical spelling and its chips.
pub open spec fn acceptance(input: Seq<char>, mods: u32, key: Seq<char>) -> Result<
    (Seq<char>, Seq<Seq<char>>),
    Seq<char>,
> {
    if mods == 0 {
        Err(no_modifier_text(input))
    } else if mods & !KNOWN_MODIFIERS != 0 {
        Err(undrawn_modifier_text(input))
    } else {
        match cap_of(key) {
            None => Err(no_cap_text(input, key)),
            Some(cap) => Ok((canonical(mods, key), caps(mods, cap))),
        }
    }
}

/// Reads an accelerator with `global_hotkey`'s parser (`HotKey::from_str`),
/// handing back the modifier bits (`Modifiers::bits`) and the key code's
/// display name, or the parser's error text.
///
/// Claimed of it: the reading is a function of the text alone (named
/// `hotkey_reading`). And, as `parse_hotkey` and `parse_key` show, a
/// combination read back from the spelling `canonical` gives the same bits and
/// key when its bits are among the four drawn ones and its key is one of the
/// families that have a cap: the tokens `Ctrl`, `Shift`, `Alt` and `Super` are
/// matched without case to exactly those bits, and `parse_key` accepts the
/// display name of every digit, letter, `F1` to `F24` and `Escape`. What the
/// error text says is left unstated.
#[verifier::external_body]
fn read_hotkey(accelerator: &str) -> (read: Result<(u32, String), String>)
    ensures
        match read {
            Ok((mods, key)) => {
                &&& hotkey_reading(accelerator@) == Some((mods, key@))
                &&& (mods & !KNOWN_MODIFIERS == 0 && cap_of(key@) is Some) ==> hotkey_reading(
                    canonical(mods, key@),
                ) == Some((mods, key@))
            },
            Err(_) => hotkey_reading(accelerator@) is None,
        },
{
    match accelerator.parse::<global_hotkey::hotkey::HotKey>() {
        Ok(hotkey) => Ok((hotkey.mods.bits(), hotkey.key.to_string())),
        Err(error) => Err(error.to_string()),
    }
}

/// Parses a combination with the plugin's own parser.
pub fn parse(accelerator: &str) -> (parsed: Result<Shortcut, String>)
    ensures
        match parsed {
            Ok(shortcut) => hotkey_reading(accelerator@) == Some((shortcut.mods, shortcut.key@)),
            Err(message) => hotkey_reading(accelerator@) is None && exists|reason: Seq<char>|
                message@ == parse_failure_text(accelerator@, reason),
        },
{
    match read_hotkey(accelerator) {
        Ok((mods, key)) => Ok(Shortcut { mods, key }),
        Err(reason) => {
            let mut message = String::from_str("`");
            message.append(accelerator);
            message.append("` is not a valid shortcut: ");
            message.append(reason.as_str());
            assert(message@ == parse_failure_text(accelerator@, reason@));
            Err(message)
        },
    }
}

/// A combination this application is willing to register, and the caps it
/// draws.
#[derive(Debug, Clone, PartialEq, Eq)]
pub struct Combination {
    /// The combination in the parser's syntax, canonical.
    pub accelerator: String,
    /// The same combination as the interface draws it, one chip per key.
    pub keys: Vec<String>,
}

/// A combination's accelerator and chips, as characters.
pub open spec fn combination_result(result: Result<Combination, String>) -> Result<
    (Seq<char>, Seq<Seq<char>>),
    Seq<char>,
> {
    match result {
        Ok(c) => Ok((c.accelerator@, texts(c.keys@))),
        Err(message) => Err(message@),
    }
}

/// Whether a key name is one of those the key families are made of.
fn single_alnum_after(chars: &Vec<char>, skip: usize) -> (single: bool)
    requires
        skip <= chars@.len(),
    ensures
        single == (chars@.len() == skip + 1 && is_ascii_alnum(chars@[skip as int])),
{
    if chars.len() - skip != 1 {
        return false;
    }
    let c = chars[skip];
    ('0' <= c && c <= '9') || ('a' <= c && c <= 'z') || ('A' <= c && c <= 'Z')
}

/// The cap a physical key is drawn with, or `None` for one nobody chose.
pub fn cap(key: &str) -> (drawn: Option<String>)
    ensures
        match drawn {
            Some(c) => cap_of(key@) == Some(c@),
            None => cap_of(key@) is None,
        },
{
    let name = chars_of(key);
    proof {
        reveal_strlit("Digit");
        reveal_strlit("Key");
    }
    if starts_with_text(&name, "Digit") {
        if single_alnum_after(&name, 5) {
            let mut drawn = String::new();
            push_range(&mut drawn, &name, 5, 6);
            assert(drawn@ =~= name@.subrange(5, 6));
            return Some(drawn);
        }
        return None;
    }
    if starts_with_text(&name, "Key") {
        if single_alnum_after(&name, 3) {
            let mut drawn = String::new();
            push_range(&mut drawn, &name, 3, 4);
            assert(drawn@ =~= name@.subrange(3, 4));
            return Some(drawn);
        }
        return None;
    }
    if same_chars(&name, "Escape") {
        return Some(String::from_str("Échap"));
    }
    if name.len() > 1 && name[0] == 'F' {
        let mut i: usize = 1;
        while i < name.len()
            invariant
                1 <= i <= name@.len(),
                name@ == key@,
                name@[0] == 'F',
                !"Digit"@.is_prefix_of(key@),
                !"Key"@.is_prefix_of(key@),
                key@ != "Escape"@,
                forall|k: int| 1 <= k < i ==> '0' <= #[trigger] name@[k] && name@[k] <= '9',
            decreases name.len() - i,
        {
            let c = name[i];
            if !('0' <= c && c <= '9') {
                assert(!is_function_key(name@));
                assert(!"Digit"@.is_prefix_of(key@));
                assert(!"Key"@.is_prefix_of(key@));
                assert(key@ != "Escape"@);
                assert(cap_of(key@) is None);
                return None;
            }
            i = i + 1;
        }
        return Some(String::from_str(key));
    }
    None
}

/// Appends a modifier's token and cap when its bit is set.
fn push_modifier(
    accelerator: &mut String,
    keys: &mut Vec<String>,
    mods: u32,
    bit: u32,
    token: &str,
    label: &str,
)
    ensures
        final(accelerator)@ == old(accelerator)@ + token_if(mods, bit, token@),
        texts(final(keys)@) == texts(old(keys)@) + cap_if(mods, bit, label@),
{
    let ghost before = keys@;
    proof {
        reveal_strlit("+");
    }
    if mods & bit != 0 {
        accelerator.append(token);
        push_char(accelerator, '+');
        assert(accelerator@ =~= old(accelerator)@ + token_if(mods, bit, token@));
        keys.push(String::from_str(label));
        assert(texts(keys@) =~= texts(before) + cap_if(mods, bit, label@));
    } else {
        assert(accelerator@ =~= old(accelerator)@ + token_if(mods, bit, token@));
        assert(texts(keys@) =~= texts(before) + cap_if(mods, bit, label@));
    }
}

/// Whether this application will offer a combination the parser read: it
/// needs a modifier, only modifiers it draws, and a key it has a cap for. The
/// accelerator that comes back is canonical, rebuilt from what was read and
/// never the caller's own spelling.
pub fn accept_parsed(input: &str, shortcut: &Shortcut) -> (accepted: Result<Combination, String>)
    ensures
        combination_result(accepted) == acceptance(input@, shortcut.mods, shortcut.key@),
{
    let mods = shortcut.mods;
    if mods == 0 {
        let mut message = String::from_str("`");
        message.append(input);
        message.append(
            "` carries no modifier. Registered globally, that key would be taken from every other application on this machine",
        );
        return Err(message);
    }
    if mods & !KNOWN_MODIFIERS != 0 {
        let mut message = String::from_str("`");
        message.append(input);
        message.append(
            "` carries a modifier this application does not draw, so it would be registered and never shown",
        );
        return Err(message);
    }
    let drawn = match cap(shortcut.key.as_str()) {
        Some(drawn) => drawn,
        None => {
            let mut message = String::from_str("`");
            message.append(input);
            message.append("` ends on `");
            message.append(shortcut.key.as_str());
            message.append(
                "`, a key this application has no cap for. It would be registered and drawn under a name invented on the spot",
            );
            return Err(message);
        },
    };
    let mut accelerator = String::new();
    let mut keys: Vec<String> = Vec::new();
    assert(texts(keys@) =~= Seq::<Seq<char>>::empty());
    push_modifier(&mut accelerator, &mut keys, mods, MOD_CONTROL, "Ctrl", "Ctrl");
    push_modifier(&mut accelerator, &mut keys, mods, MOD_SHIFT, "Shift", "Maj");
    push_modifier(&mut accelerator, &mut keys, mods, MOD_ALT, "Alt", "Alt");
    push_modifier(&mut accelerator, &mut keys, mods, MOD_SUPER, "Super", "Windows");
    accelerator.append(shortcut.key.as_str());
    let ghost before = keys@;
    keys.push(drawn);
    assert(texts(keys@) =~= texts(before) + seq![drawn@]);
    assert(accelerator@ =~= canonical(mods, shortcut.key@));
    assert(texts(keys@) =~= caps(mods, drawn@));
    Ok(Combination { accelerator, keys })
}

/// Every character of a key name that has a cap is an ASCII letter or digit.
proof fn lemma_capped_name_is_alnum(name: Seq<char>)
    requires
        cap_of(name) is Some,
    ensures
        forall|i: int| 0 <= i < name.len() ==> is_ascii_alnum(#[trigger] name[i]),
{
    reveal_strlit("Digit");
    reveal_strlit("Key");
    reveal_strlit("Escape");
    if "Digit"@.is_prefix_of(name) {
        assert forall|i: int| 0 <= i < name.len() implies is_ascii_alnum(#[trigger] name[i]) by {
            if i < 5 {
                assert(name[i] == "Digit"@[i]);
            } else {
                assert(name[i] == name.subrange(5, name.len() as int)[i - 5]);
            }
        }
    } else if "Key"@.is_prefix_of(name) {
        assert forall|i: int| 0 <= i < name.len() implies is_ascii_alnum(#[trigger] name[i]) by {
            if i < 3 {
                assert(name[i] == "Key"@[i]);
            } else {
                assert(name[i] == name.subrange(3, name.len() as int)[i - 3]);
            }
        }
    } else if name == "Escape"@ {
    } else {
        assert(is_function_key(name));
    }
}

/// A canonical spelling can be written to the settings file as it stands: it
/// is made of ASCII letters, digits and `+`, and it is never empty.
proof fn lemma_canonical_is_renderable(mods: u32, key: Seq<char>)
    requires
        cap_of(key) is Some,
    ensures
        renderable(canonical(mods, key)),
        canonical(mods, key).len() > 0,
{
    reveal_strlit("Ctrl");
    reveal_strlit("Shift");
    reveal_strlit("Alt");
    reveal_strlit("Super");
    reveal_strlit("+");
    lemma_capped_name_is_alnum(key);
    let text = canonical(mods, key);
    let front = token_if(mods, MOD_CONTROL, "Ctrl"@) + token_if(mods, MOD_SHIFT, "Shift"@) + token_if(
        mods,
        MOD_ALT,
        "Alt"@,
    ) + token_if(mods, MOD_SUPER, "Super"@);
    assert forall|i: int| 0 <= i < front.len() implies ({
        let c = #[trigger] front[i];
        c != '"' && c != '\\' && c != '\n' && c != '\r'
    }) by {
        let a = token_if(mods, MOD_CONTROL, "Ctrl"@);
        let b = token_if(mods, MOD_SHIFT, "Shift"@);
        let c = token_if(mods, MOD_ALT, "Alt"@);
        let d = token_if(mods, MOD_SUPER, "Super"@);
        if i < a.len() {
            assert(front[i] == a[i]);
        } else if i < a.len() + b.len() {
            assert(front[i] == b[i - a.len()]);
        } else if i < a.len() + b.len() + c.len() {
            assert(front[i] == c[i - a.len() - b.len()]);
        } else {
            assert(front[i] == d[i - a.len() - b.len() - c.len()]);
        }
    }
    assert(text == front + key);
    assert forall|i: int| 0 <= i < text.len() implies ({
        let c = #[trigger] text[i];
        c != '"' && c != '\\' && c != '\n' && c != '\r'
    }) by {
        if i < front.len() {
            assert(text[i] == front[i]);
        } else {
            assert(text[i] == key[i - front.len()]);
        }
    }
    assert(key.len() > 0) by {
        reveal_strlit("Escape");
    }
}

/// Whether accepting `again` is answered with `answer`, given that it reads
/// as `input` does.
pub open spec fn accepts_again(
    input: Seq<char>,
    again: Seq<char>,
    answer: Result<(Seq<char>, Seq<Seq<char>>), Seq<char>>,
) -> bool {
    match hotkey_reading(input) {
        Some((mods, key)) => answer == acceptance(again, mods, key),
        None => false,
    }
}

/// Whether this application will offer a combination to the operating
/// system. Everything a user can type reaches the system through here. An
/// accepted combination comes back canonical: it reads back to the same
/// combination, it accepts again to the same value, and it can be written to
/// the settings file unescaped.
pub fn accept(input: &str) -> (accepted: Result<Combination, String>)
    ensures
        match hotkey_reading(input@) {
            None => accepted is Err && exists|reason: Seq<char>|
                accepted->Err_0@ == parse_failure_text(input@, reason),
            Some((mods, key)) => combination_result(accepted) == acceptance(input@, mods, key),
        },
        accepted matches Ok(c) ==> {
            &&& hotkey_reading(c.accelerator@) == hotkey_reading(input@)
            &&& accepts_again(input@, c.accelerator@, combination_result(accepted))
            &&& renderable(c.accelerator@)
            &&& c.accelerator@.len() > 0
        },
{
    match read_hotkey(input) {
        Err(reason) => {
            let mut message = String::from_str("`");
            message.append(input);
            message.append("` is not a valid shortcut: ");
            message.append(reason.as_str());
            assert(message@ == parse_failure_text(input@, reason@));
            Err(message)
        },
        Ok((mods, key)) => {
            let shortcut = Shortcut { mods, key };
            let accepted = accept_parsed(input, &shortcut);
            proof {
                if accepted is Ok {
                    lemma_canonical_is_renderable(mods, shortcut.key@);
                }
            }
            accepted
        },
    }
}

/// One row of the table as the frontend receives it.
#[derive(Debug, Clone, PartialEq)]
pub struct ShortcutRow {
    pub id: &'static str,
    pub accelerator: String,
    pub keys: Vec<String>,
    pub description_key: &'static str,
    pub category: ShortcutCategory,
}

/// The chips of a list of static strings, as owned strings.
fn owned_keys(keys: &Vec<&'static str>) -> (owned: Vec<String>)
    ensures
        texts(owned@) == static_texts(keys@),
{
    let mut owned: Vec<String> = Vec::new();
    let mut i: usize = 0;
    while i < keys.len()
        invariant
            i <= keys@.len(),
            texts(owned@) == static_texts(keys@).subrange(0, i as int),
        decreases keys.len() - i,
    {
        let ghost before = owned@;
        owned.push(String::from_str(keys[i]));
        assert(texts(owned@) =~= texts(before).push(keys@[i as int]@));
        i = i + 1;
        assert(static_texts(keys@).subrange(0, i as int) =~= static_texts(keys@).subrange(0, i - 1).push(
            keys@[i - 1]@,
        ));
    }
    assert(static_texts(keys@).subrange(0, keys@.len() as int) =~= static_texts(keys@));
    owned
}

/// The table as it is published, given what was offered to the system: the
/// capture row carries the offered combination when there is one, and every
/// other value is the registry's own.
pub fn rows(capture: Option<&Combination>) -> (published: Vec<ShortcutRow>)
    ensures
        published@.len() == 1,
        published@[0].id@ == CAPTURE_REGION@,
        published@[0].description_key@ == "captureRegion"@,
        published@[0].category == ShortcutCategory::Capture,
        match capture {
            Some(c) => published@[0].accelerator@ == c.accelerator@ && texts(published@[0].keys@) == texts(
                c.keys@,
            ),
            None => published@[0].accelerator@ == "Ctrl+Shift+Digit2"@ && texts(published@[0].keys@) == seq![
                "Ctrl"@,
                "Maj"@,
                "2"@,
            ],
        },
{
    let mut entries = registry();
    let row = entries.remove(0);
    let (accelerator, keys) = match capture {
        Some(c) if same_text(row.id, CAPTURE_REGION) => {
            let mut keys: Vec<String> = Vec::new();
            let mut i: usize = 0;
            while i < c.keys.len()
                invariant
                    i <= c.keys@.len(),
                    texts(keys@) == texts(c.keys@).subrange(0, i as int),
                decreases c.keys.len() - i,
            {
                let ghost before = keys@;
                keys.push(c.keys[i].clone());
                assert(texts(keys@) =~= texts(before).push(c.keys@[i as int]@));
                i = i + 1;
                assert(texts(c.keys@).subrange(0, i as int) =~= texts(c.keys@).subrange(0, i - 1).push(
                    c.keys@[i - 1]@,
                ));
            }
            assert(texts(c.keys@).subrange(0, c.keys@.len() as int) =~= texts(c.keys@));
            (c.accelerator.clone(), keys)
        },
        _ => (String::from_str(row.accelerator), owned_keys(&row.keys)),
    };
    let published = ShortcutRow {
        id: row.id,
        accelerator,
        keys,
        description_key: row.description_key,
        category: row.category,
    };
    vec![published]
}

/// The refusal when no shortcut status is managed at all.
pub open spec fn unmanaged_status_text() -> Seq<char> {
    "no shortcut status is managed at all. Since 7 September 2026 `setup` manages one on its FIRST instruction (src-tauri/src/lib.rs), before anything slow runs, so this is not a call that arrived too early: it means `setup` never ran. That is a programming error in this application, not a machine problem."@
}

/// What the status command answers, given what is managed: whatever is
/// managed, unchanged, every variant of it; an error when nothing is.
pub fn status_answer(managed: Option<ShortcutStatus>) -> (answer: Result<ShortcutStatus, String>)
    ensures
        match managed {
            Some(status) => answer == Ok::<ShortcutStatus, String>(status),
            None => answer matches Err(message) && message@ == unmanaged_status_text(),
        },
{
    match managed {
        Some(status) => Ok(status),
        None => Err(
            String::from_str(
                "no shortcut status is managed at all. Since 7 September 2026 `setup` manages one on its FIRST instruction (src-tauri/src/lib.rs), before anything slow runs, so this is not a call that arrived too early: it means `setup` never ran. That is a programming error in this application, not a machine problem.",
            ),
        ),
    }
}

/// A combination the parser read with at least one modifier, every one of
/// them among Ctrl, Shift, Alt and Super, and a key that has a cap, is
/// accepted whichever of the four it holds: spelled canonically and drawn
/// with its caps. Alt+Shift+KeyS is taken as Shift+Alt+KeyS, drawn Maj, Alt, S.
pub proof fn law_every_drawn_combination_is_accepted(input: Seq<char>, mods: u32, key: Seq<char>)
    requires
        mods != 0,
        mods & !KNOWN_MODIFIERS == 0,
        cap_of(key) is Some,
    ensures
        acceptance(input, mods, key) == Ok::<(Seq<char>, Seq<Seq<char>>), Seq<char>>(
            (canonical(mods, key), caps(mods, cap_of(key)->0)),
        ),
        canonical(mods, key) == (if mods & MOD_CONTROL != 0 {
            "Ctrl+"@
        } else {
            ""@
        }) + (if mods & MOD_SHIFT != 0 {
            "Shift+"@
        } else {
            ""@
        }) + (if mods & MOD_ALT != 0 {
            "Alt+"@
        } else {
            ""@
        }) + (if mods & MOD_SUPER != 0 {
            "Super+"@
        } else {
            ""@
        }) + key,
        caps(mods, cap_of(key)->0) == (if mods & MOD_CONTROL != 0 {
            seq!["Ctrl"@]
        } else {
            Seq::empty()
        }) + (if mods & MOD_SHIFT != 0 {
            seq!["Maj"@]
        } else {
            Seq::empty()
        }) + (if mods & MOD_ALT != 0 {
            seq!["Alt"@]
        } else {
            Seq::empty()
        }) + (if mods & MOD_SUPER != 0 {
            seq!["Windows"@]
        } else {
            Seq::empty()
        }) + seq![cap_of(key)->0],
{
    reveal_strlit("Ctrl");
    reveal_strlit("Shift");
    reveal_strlit("Alt");
    reveal_strlit("Super");
    reveal_strlit("+");
    reveal_strlit("Ctrl+");
    reveal_strlit("Shift+");
    reveal_strlit("Alt+");
    reveal_strlit("Super+");
    reveal_strlit("");
    assert("Ctrl"@ + "+"@ =~= "Ctrl+"@);
    assert("Shift"@ + "+"@ =~= "Shift+"@);
    assert("Alt"@ + "+"@ =~= "Alt+"@);
    assert("Super"@ + "+"@ =~= "Super+"@);
    assert(""@ =~= Seq::<char>::empty());
}

/// Each of the other refusals has its own condition, and only that one: a
/// modifier this application does not draw, on a combination that has some;
/// a key without a cap, on one whose modifiers are all drawn.
pub proof fn law_each_refusal_has_its_own_condition(input: Seq<char>, mods: u32, key: Seq<char>)
    ensures
        (acceptance(input, mods, key) == Err::<(Seq<char>, Seq<Seq<char>>), Seq<char>>(
            undrawn_modifier_text(input),
        )) == (mods != 0 && mods & !KNOWN_MODIFIERS != 0),
        (acceptance(input, mods, key) == Err::<(Seq<char>, Seq<Seq<char>>), Seq<char>>(no_cap_text(input, key)))
            == (mods != 0 && mods & !KNOWN_MODIFIERS == 0 && cap_of(key) is None),
{
    reveal_strlit("`");
    reveal_strlit(
        "` carries no modifier. Registered globally, that key would be taken from every other application on this machine",
    );
    reveal_strlit("` carries a modifier this application does not draw, so it would be registered and never shown");
    reveal_strlit("` ends on `");
    let n = input.len() as int;
    let bare = no_modifier_text(input);
    let undrawn = undrawn_modifier_text(input);
    let no_cap = no_cap_text(input, key);
    assert(bare[n + 3] == 'c');
    assert(bare[n + 11] == 'n');
    assert(undrawn[n + 3] == 'c');
    assert(undrawn[n + 11] == 'a');
    assert(no_cap[n + 3] == 'e');
    assert(undrawn != bare);
    assert(no_cap != bare);
    assert(no_cap != undrawn);
}

/// The no-modifier refusal is given exactly when the combination holds no
/// modifier at all, never to one that holds some but not Ctrl.
pub proof fn law_bare_key_refusal_exactly_without_modifiers(input: Seq<char>, mods: u32, key: Seq<char>)
    ensures
        (acceptance(input, mods, key) == Err::<(Seq<char>, Seq<Seq<char>>), Seq<char>>(no_modifier_text(input)))
            == (mods == 0),
{
    reveal_strlit("`");
    reveal_strlit(
        "` carries no modifier. Registered globally, that key would be taken from every other application on this machine",
    );
    reveal_strlit("` carries a modifier this application does not draw, so it would be registered and never shown");
    reveal_strlit("` ends on `");
    let n = input.len() as int;
    let bare = no_modifier_text(input);
    assert(bare[n + 3] == 'c');
    assert(bare[n + 11] == 'n');
    if mods != 0 {
        let undrawn = undrawn_modifier_text(input);
        assert(undrawn[n + 11] == 'a');
        assert(undrawn != bare);
        let no_cap = no_cap_text(input, key);
        assert(no_cap[n + 3] == 'e');
        assert(no_cap != bare);
    }
}

} // verus!
