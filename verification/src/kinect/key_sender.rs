//! Key emulation for the body-tracking front end, switchable between a dry
//! run (only reported) and real key events. The sender decides which
//! outputs a press, release or tap consists of; performing them (console
//! output, the platform's key injection, the pause) is left to the caller.
use vstd::prelude::*;

verus! {

/// Keys the game is controlled with.
#[derive(Debug, Clone, Copy, PartialEq, Eq, Structural)]
pub enum Key {
    Space,
    Ctrl,
    A,
    D,
}

/// The name under which a key is logged.
pub open spec fn key_name(k: Key) -> Seq<char> {
    match k {
        Key::Space => "space"@,
        Key::Ctrl => "ctrl"@,
        Key::A => "a"@,
        Key::D => "d"@,
    }
}

/// The Windows virtual-key code of a key (left control for `Ctrl`).
pub open spec fn spec_vk_code(k: Key) -> u32 {
    match k {
        Key::Space => 0x20,
        Key::Ctrl => 0xA2,
        Key::A => 0x41,
        Key::D => 0x44,
    }
}

impl Key {
    /// Log name of the key.
    pub fn as_str(self) -> (r: &'static str)
        ensures
            r@ == key_name(self),
    {
        proof {
            reveal_strlit("space");
            reveal_strlit("ctrl");
            reveal_strlit("a");
            reveal_strlit("d");
        }
        match self {
            Key::Space => "space",
            Key::Ctrl => "ctrl",
            Key::A => "a",
            Key::D => "d",
        }
    }
}

/// The Windows virtual-key code of a key.
pub fn vk_code(key: Key) -> (r: u32)
    ensures
        r == spec_vk_code(key),
{
    match key {
        Key::Space => 0x20,
        Key::Ctrl => 0xA2,
        Key::A => 0x41,
        Key::D => 0x44,
    }
}

/// Milliseconds a tapped key is held down when sending real keys.
pub const TAP_HOLD_MS: u64 = 40;

/// One output of the sender.
#[derive(Debug, Clone, Copy, PartialEq, Eq, Structural)]
pub enum KeyOutput {
    /// Dry run: report the key event (`keyup` true for a release) instead of
    /// sending it.
    Report { key: Key, keyup: bool },
    /// Inject the key event.
    Send { key: Key, keyup: bool },
    /// Wait this many milliseconds.
    Pause { ms: u64 },
}

/// The output for one key event of a sender in the given mode.
pub open spec fn event_output(dry_run: bool, key: Key, keyup: bool) -> KeyOutput {
    if dry_run {
        KeyOutput::Report { key, keyup }
    } else {
        KeyOutput::Send { key, keyup }
    }
}

/// The word a dry run reports for a key event ("PRESS  " is padded to the
/// width of "RELEASE").
pub open spec fn report_word(keyup: bool) -> Seq<char> {
    if keyup { "RELEASE"@ } else { "PRESS  "@ }
}

/// The word a dry run reports for a key event.
pub fn report_label(keyup: bool) -> (r: &'static str)
    ensures
        r@ == report_word(keyup),
{
    proof {
        reveal_strlit("RELEASE");
        reveal_strlit("PRESS  ");
    }
    if keyup { "RELEASE" } else { "PRESS  " }
}

/// Key sender, either in dry-run mode or sending real keys.
#[derive(Debug)]
pub struct KeySender {
    dry_run: bool,
}

impl KeySender {
    pub fn new(dry_run: bool) -> (r: Self)
        ensures
            r.is_dry_run() == dry_run,
    {
        KeySender { dry_run }
    }

    pub closed spec fn is_dry_run(&self) -> bool {
        self.dry_run
    }

    /// Whether this sender only reports.
    pub fn dry_run(&self) -> (r: bool)
        ensures
            r == self.is_dry_run(),
    {
        self.dry_run
    }

    /// Key down.
    pub fn press(&self, key: Key) -> (r: KeyOutput)
        ensures
            r == event_output(self.is_dry_run(), key, false),
    {
        self.send(key, false)
    }

    /// Key up.
    pub fn release(&self, key: Key) -> (r: KeyOutput)
        ensures
            r == event_output(self.is_dry_run(), key, true),
    {
        self.send(key, true)
    }

    /// Key down and up; real keys stay down for [`TAP_HOLD_MS`].
    pub fn tap(&self, key: Key) -> (r: Vec<KeyOutput>)
        ensures
            r@ == (if self.is_dry_run() {
                seq![KeyOutput::Report { key, keyup: false }, KeyOutput::Report { key, keyup: true }]
            } else {
                seq![
                    KeyOutput::Send { key, keyup: false },
                    KeyOutput::Pause { ms: TAP_HOLD_MS },
                    KeyOutput::Send { key, keyup: true },
                ]
            }),
    {
        let mut out: Vec<KeyOutput> = Vec::new();
        out.push(self.press(key));
        if !self.dry_run {
            out.push(KeyOutput::Pause { ms: TAP_HOLD_MS });
        }
        out.push(self.release(key));
        out
    }

    fn send(&self, key: Key, keyup: bool) -> (r: KeyOutput)
        ensures
            r == event_output(self.is_dry_run(), key, keyup),
    {
        if self.dry_run {
            KeyOutput::Report { key, keyup }
        } else {
            KeyOutput::Send { key, keyup }
        }
    }
}

} // verus!
