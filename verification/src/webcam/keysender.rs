//! Key emulation for the webcam front end, switchable at runtime between a
//! dry run and real key events. The sender tracks which real keys it holds
//! down, so that they can all be released (emergency stop, switching off).
//! It decides the outputs; performing them is left to the caller.
use vstd::prelude::*;

verus! {

/// Keys the game is controlled with.
#[derive(Debug, Clone, Copy, PartialEq, Eq, Structural)]
pub enum Key {
    W,
    A,
    D,
    S,
}

/// The name under which a key is logged.
pub open spec fn key_name(k: Key) -> Seq<char> {
    match k {
        Key::W => "w"@,
        Key::A => "a"@,
        Key::D => "d"@,
        Key::S => "s"@,
    }
}

/// The Windows virtual-key code of a key.
pub open spec fn spec_vk_code(k: Key) -> u32 {
    match k {
        Key::W => 0x57,
        Key::A => 0x41,
        Key::D => 0x44,
        Key::S => 0x53,
    }
}

impl Key {
    /// Log name of the key.
    pub fn as_str(self) -> (r: &'static str)
        ensures
            r@ == key_name(self),
    {
        proof {
            reveal_strlit("w");
            reveal_strlit("a");
            reveal_strlit("d");
            reveal_strlit("s");
        }
        match self {
            Key::W => "w",
            Key::A => "a",
            Key::D => "d",
            Key::S => "s",
        }
    }
}

/// The Windows virtual-key code of a key.
pub fn vk_code(key: Key) -> (r: u32)
    ensures
        r == spec_vk_code(key),
{
    match key {
        Key::W => 0x57,
        Key::A => 0x41,
        Key::D => 0x44,
        Key::S => 0x53,
    }
}

/// Milliseconds a tapped key is held down when sending real keys.
pub const TAP_HOLD_MS: u64 = 40;

/// One output of the sender.
#[derive(Debug, Clone, Copy, PartialEq, Eq, Structural)]
pub enum KeyOutput {
    /// Dry run: report a tap.
    ReportTap { key: Key },
    /// Dry run: report a hold change.
    ReportHold { key: Key, down: bool },
    /// Inject a key event (`keyup` true for a release).
    Send { key: Key, keyup: bool },
    /// Wait this many milliseconds.
    Pause { ms: u64 },
    /// The sending mode is now `enabled`.
    Mode { enabled: bool },
}

/// Abstract state of a [`KeySender`].
pub struct SenderModel {
    pub send_enabled: bool,
    /// Real keys currently held down, in the order they were pressed.
    pub held: Seq<Key>,
}

/// Releases for every key in `held`, in order.
pub open spec fn releases(held: Seq<Key>) -> Seq<KeyOutput> {
    held.map_values(|k: Key| KeyOutput::Send { key: k, keyup: true })
}

/// Everything but `key`.
pub open spec fn other_than(key: Key) -> spec_fn(Key) -> bool {
    |k: Key| k != key
}

impl SenderModel {
    /// Held keys after holding (`down`) or letting go of `key`.
    pub open spec fn hold_next(self, key: Key, down: bool) -> SenderModel {
        if !self.send_enabled {
            self
        } else if down {
            SenderModel {
                held: if self.held.contains(key) { self.held } else { self.held.push(key) },
                ..self
            }
        } else {
            SenderModel { held: self.held.filter(other_than(key)), ..self }
        }
    }

    /// Outputs of holding (`down`) or letting go of `key`.
    pub open spec fn hold_outputs(self, key: Key, down: bool) -> Seq<KeyOutput> {
        if !self.send_enabled {
            seq![KeyOutput::ReportHold { key, down }]
        } else {
            seq![KeyOutput::Send { key, keyup: !down }]
        }
    }

    /// Outputs of a tap of `key`.
    pub open spec fn tap_outputs(self, key: Key) -> Seq<KeyOutput> {
        if !self.send_enabled {
            seq![KeyOutput::ReportTap { key }]
        } else {
            seq![
                KeyOutput::Send { key, keyup: false },
                KeyOutput::Pause { ms: TAP_HOLD_MS },
                KeyOutput::Send { key, keyup: true },
            ]
        }
    }

    /// State after switching the mode to `enabled`.
    pub open spec fn set_send_next(self, enabled: bool) -> SenderModel {
        SenderModel {
            send_enabled: enabled,
            held: if self.send_enabled && !enabled { seq![] } else { self.held },
        }
    }

    /// Outputs of switching the mode to `enabled`.
    pub open spec fn set_send_outputs(self, enabled: bool) -> Seq<KeyOutput> {
        if self.send_enabled && !enabled {
            releases(self.held).push(KeyOutput::Mode { enabled })
        } else {
            seq![KeyOutput::Mode { enabled }]
        }
    }
}

/// Key sender with a runtime-switchable send mode.
#[derive(Debug)]
pub struct KeySender {
    send_enabled: bool,
    held: Vec<Key>,
}

impl View for KeySender {
    type V = SenderModel;

    closed spec fn view(&self) -> SenderModel {
        SenderModel { send_enabled: self.send_enabled, held: self.held@ }
    }
}

impl KeySender {
    #[verifier::type_invariant]
    closed spec fn inv(self) -> bool {
        self.held@.no_duplicates()
    }

    /// A sender holding no key.
    pub fn new(send_enabled: bool) -> (r: Self)
        ensures
            r@.send_enabled == send_enabled,
            r@.held == Seq::<Key>::empty(),
    {
        KeySender { send_enabled, held: Vec::new() }
    }

    /// Whether real keys are sent.
    pub fn send_enabled(&self) -> (r: bool)
        ensures
            r == self@.send_enabled,
    {
        self.send_enabled
    }

    /// The real keys held down are never listed twice.
    pub fn held_keys(&self) -> (r: &Vec<Key>)
        ensures
            r@ == self@.held,
            r@.no_duplicates(),
    {
        proof {
            use_type_invariant(self);
        }
        &self.held
    }

    /// Switches the mode; switching real sending off first releases every
    /// held key.
    pub fn set_send(&mut self, enabled: bool) -> (r: Vec<KeyOutput>)
        ensures
            final(self)@ == old(self)@.set_send_next(enabled),
            r@ == old(self)@.set_send_outputs(enabled),
    {
        let mut out: Vec<KeyOutput> = Vec::new();
        if self.send_enabled && !enabled {
            out = self.release_all();
        }
        proof {
            use_type_invariant(&*self);
        }
        self.send_enabled = enabled;
        out.push(KeyOutput::Mode { enabled });
        assert(self@.held =~= old(self)@.set_send_next(enabled).held);
        out
    }

    /// A tap: reported in a dry run, otherwise key down, a pause of
    /// [`TAP_HOLD_MS`] and key up. The held keys are not affected.
    pub fn tap(&self, key: Key) -> (r: Vec<KeyOutput>)
        ensures
            r@ == self@.tap_outputs(key),
    {
        let mut out: Vec<KeyOutput> = Vec::new();
        if !self.send_enabled {
            out.push(KeyOutput::ReportTap { key });
            return out;
        }
        out.push(KeyOutput::Send { key, keyup: false });
        out.push(KeyOutput::Pause { ms: TAP_HOLD_MS });
        out.push(KeyOutput::Send { key, keyup: true });
        out
    }

    /// Holds (`down`) or lets go of a key. In a dry run this is only
    /// reported; otherwise the key is sent and recorded as held (once) or
    /// removed from the held keys.
    pub fn hold(&mut self, key: Key, down: bool) -> (r: Vec<KeyOutput>)
        ensures
            final(self)@ == old(self)@.hold_next(key, down),
            r@ == old(self)@.hold_outputs(key, down),
    {
        proof {
            use_type_invariant(&*self);
        }
        let mut out: Vec<KeyOutput> = Vec::new();
        if !self.send_enabled {
            out.push(KeyOutput::ReportHold { key, down });
            return out;
        }
        if down {
            if !Self::contains(&self.held, key) {
                let mut h = self.held.clone();
                assert(h@ =~= self.held@);
                h.push(key);
                proof {
                    assert forall|a: int, b: int|
                        0 <= a < h@.len() && 0 <= b < h@.len() && a != b implies h@[a] != h@[b] by {
                        if a == h@.len() - 1 {
                            assert(self.held@[b] == h@[b]);
                        } else if b == h@.len() - 1 {
                            assert(self.held@[a] == h@[a]);
                        }
                    }
                }
                self.held = h;
            }
            out.push(KeyOutput::Send { key, keyup: false });
        } else {
            let kept = Self::without(&self.held, key);
            self.held = kept;
            out.push(KeyOutput::Send { key, keyup: true });
        }
        out
    }

    /// Emergency stop: releases every held key and forgets them.
    pub fn release_all(&mut self) -> (r: Vec<KeyOutput>)
        ensures
            final(self)@.send_enabled == old(self)@.send_enabled,
            final(self)@.held == Seq::<Key>::empty(),
            r@ == releases(old(self)@.held),
    {
        let mut out: Vec<KeyOutput> = Vec::new();
        let n = self.held.len();
        for i in 0..n
            invariant
                n == self.held@.len(),
                out@ == releases(self.held@.take(i as int)),
        {
            out.push(KeyOutput::Send { key: self.held[i], keyup: true });
            assert(self.held@.take(i + 1) =~= self.held@.take(i as int).push(self.held@[i as int]));
            assert(releases(self.held@.take(i + 1)) =~= releases(self.held@.take(i as int)).push(
                KeyOutput::Send { key: self.held@[i as int], keyup: true },
            ));
        }
        assert(self.held@.take(n as int) =~= self.held@);
        self.held = Vec::new();
        assert(self@.held =~= Seq::<Key>::empty());
        out
    }

    fn contains(held: &Vec<Key>, key: Key) -> (r: bool)
        ensures
            r == held@.contains(key),
    {
        let n = held.len();
        for i in 0..n
            invariant
                n == held@.len(),
                forall|j: int| 0 <= j < i ==> held@[j] != key,
        {
            if held[i] == key {
                return true;
            }
        }
        false
    }

    fn without(held: &Vec<Key>, key: Key) -> (r: Vec<Key>)
        requires
            held@.no_duplicates(),
        ensures
            r@ == held@.filter(other_than(key)),
            r@.no_duplicates(),
    {
        let mut kept: Vec<Key> = Vec::new();
        let n = held.len();
        for i in 0..n
            invariant
                n == held@.len(),
                held@.no_duplicates(),
                kept@ == held@.take(i as int).filter(other_than(key)),
                kept@.no_duplicates(),
                forall|k: Key| kept@.contains(k) ==> held@.take(i as int).contains(k),
        {
            let k = held[i];
            proof {
                held@.take(i as int).lemma_filter_push(k, other_than(key));
                assert(held@.take(i + 1) =~= held@.take(i as int).push(k));
                assert(!held@.take(i as int).contains(k)) by {
                    if held@.take(i as int).contains(k) {
                        let j = choose|j: int| 0 <= j < i && held@.take(i as int)[j] == k;
                        assert(held@[j] == held@[i as int]);
                    }
                }
            }
            let ghost before = kept@;
            if k != key {
                kept.push(k);
                proof {
                    assert forall|a: int, b: int|
                        0 <= a < kept@.len() && 0 <= b < kept@.len() && a != b implies kept@[a]
                        != kept@[b] by {
                        if a == kept@.len() - 1 {
                            assert(before[b] == kept@[b]);
                            assert(before.contains(before[b]));
                        } else if b == kept@.len() - 1 {
                            assert(before[a] == kept@[a]);
                            assert(before.contains(before[a]));
                        } else {
                            assert(before[a] == kept@[a] && before[b] == kept@[b]);
                        }
                    }
                }
            }
            proof {
                assert forall|k2: Key| kept@.contains(k2) implies held@.take(i + 1).contains(k2) by {
                    if before.contains(k2) {
                        assert(held@.take(i as int).contains(k2));
                        let j = choose|j: int| 0 <= j < i && held@.take(i as int)[j] == k2;
                        assert(held@.take(i + 1)[j] == k2);
                    } else if held@.take(i as int).contains(k2) {
                        let j = choose|j: int| 0 <= j < i && held@.take(i as int)[j] == k2;
                        assert(held@.take(i + 1)[j] == k2);
                    } else {
                        assert(held@.take(i + 1)[i as int] == k2);
                    }
                }
            }
        }
        assert(held@.take(n as int) =~= held@);
        kept
    }
}

/// Holding a key and letting it go again leaves it released and every
/// other key as it was; a held key is recorded once however often it is
/// held.
pub proof fn lemma_hold_then_release(m: SenderModel, key: Key, other: Key)
    requires
        m.send_enabled,
        m.held.no_duplicates(),
        other != key,
    ensures
        m.hold_next(key, true).held.contains(key),
        m.hold_next(key, true).hold_next(key, true) == m.hold_next(key, true),
        !m.hold_next(key, true).hold_next(key, false).held.contains(key),
        m.hold_next(key, true).hold_next(key, false).held.contains(other) == m.held.contains(other),
{
    broadcast use vstd::seq_lib::group_filter_ensures;

    let h1 = m.hold_next(key, true).held;
    assert(h1.contains(key)) by {
        if !m.held.contains(key) {
            assert(h1[h1.len() - 1] == key);
        }
    }
    let h2 = h1.filter(other_than(key));
    if h2.contains(key) {
        let i = choose|i: int| 0 <= i < h2.len() && h2[i] == key;
        assert(other_than(key)(h2[i]));
    }
    if m.held.contains(other) {
        let i = choose|i: int| 0 <= i < m.held.len() && m.held[i] == other;
        assert(h1[i] == other);
        assert(other_than(key)(h1[i]));
    }
    if h2.contains(other) {
        let i = choose|i: int| 0 <= i < h2.len() && h2[i] == other;
        h1.lemma_filter_contains_rev(other_than(key), other);
        let j = choose|j: int| 0 <= j < h1.len() && h1[j] == other;
        if j < m.held.len() {
            assert(m.held[j] == other);
        }
    }
}

/// Switching real sending off releases exactly the held keys, each once, and
/// leaves nothing held; a following release-all emits nothing.
pub proof fn lemma_switch_off_releases_all(m: SenderModel)
    requires
        m.send_enabled,
    ensures
        m.set_send_next(false).held == Seq::<Key>::empty(),
        m.set_send_outputs(false).len() == m.held.len() + 1,
        forall|i: int|
            0 <= i < m.held.len() ==> #[trigger] m.set_send_outputs(false)[i] == (KeyOutput::Send {
                key: m.held[i],
                keyup: true,
            }),
        releases(m.set_send_next(false).held) == Seq::<KeyOutput>::empty(),
{
    assert(releases(Seq::<Key>::empty()) =~= Seq::<KeyOutput>::empty());
}

} // verus!
