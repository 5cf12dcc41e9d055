//! The decisions of the generation loop: when to stop, which position each
//! generated token is fed back at, and the sampler's seed.
//!
//! The loop itself (running the model, decoding and printing tokens) belongs
//! to the program; it asks [`Decoder::wants_token`] before sampling, hands
//! every sampled id to [`Decoder::step`], and does what the returned
//! [`DecodeAction`] says.

use vstd::prelude::*;
use std::time::{Duration, SystemTime, UNIX_EPOCH};
use crate::attention::{advances_since_clear, has_clear, lemma_cursor_counts_advances, replay, replayable, CacheOp, KvCacheView};

verus! {

/// Qwen2.5's `<|endoftext|>` token id.
pub const END_OF_TEXT: u32 = 151643;

/// Qwen2.5's `<|im_end|>` token id, which closes a chat turn.
pub const IM_END: u32 = 151645;

/// Token ids that end generation.
pub open spec fn spec_is_eos(id: u32) -> bool {
    id == END_OF_TEXT || id == IM_END
}

/// Whether `id` ends generation.
pub fn is_eos(id: u32) -> (r: bool)
    ensures
        r == spec_is_eos(id),
{
    id == END_OF_TEXT || id == IM_END
}

/// What the generation loop does with a sampled token.
#[derive(Debug, Clone, Copy, PartialEq, Eq, Structural)]
pub enum DecodeAction {
    /// The token ends generation: emit nothing more.
    Stop,
    /// Emit `token`, then feed it to the model at absolute position `pos`.
    Emit { token: u32, pos: usize },
}

/// The state of the decode phase, after a prompt of `start` tokens has been
/// fed to the model.
pub struct Decoder {
    start: usize,
    generated: usize,
    max_tokens: usize,
    stopped: bool,
}

/// What a [`Decoder`] holds, as mathematical values.
pub struct DecoderView {
    /// Prompt length: the position of the first generated token.
    pub start: nat,
    /// Tokens emitted so far.
    pub generated: nat,
    /// Most tokens to emit.
    pub max_tokens: nat,
    /// Whether an end-of-sequence token has been sampled.
    pub stopped: bool,
}

impl DecoderView {
    /// Whether the loop should sample another token.
    pub open spec fn wants_token(self) -> bool {
        !self.stopped && self.generated < self.max_tokens
    }

    /// The decoder after `sampled` was handed to it.
    pub open spec fn after(self, sampled: u32) -> DecoderView {
        if spec_is_eos(sampled) {
            DecoderView { stopped: true, ..self }
        } else {
            DecoderView { generated: self.generated + 1, ..self }
        }
    }

    /// What the loop is told to do with `sampled`.
    pub open spec fn action(self, sampled: u32) -> DecodeAction {
        if spec_is_eos(sampled) {
            DecodeAction::Stop
        } else {
            DecodeAction::Emit { token: sampled, pos: (self.start + self.generated) as usize }
        }
    }
}

impl View for Decoder {
    type V = DecoderView;

    closed spec fn view(&self) -> DecoderView {
        DecoderView {
            start: self.start as nat,
            generated: self.generated as nat,
            max_tokens: self.max_tokens as nat,
            stopped: self.stopped,
        }
    }
}

impl Decoder {
    #[verifier::type_invariant]
    closed spec fn within_limits(self) -> bool {
        &&& self.generated <= self.max_tokens
        &&& self.start + self.max_tokens <= usize::MAX
    }

    /// Start decoding after a prompt of `prompt_len` tokens, emitting at
    /// most `max_tokens` tokens.
    pub fn new(prompt_len: usize, max_tokens: usize) -> (d: Self)
        requires
            prompt_len + max_tokens <= usize::MAX,
        ensures
            d@ == (DecoderView { start: prompt_len as nat, generated: 0, max_tokens: max_tokens as nat, stopped: false }),
    {
        Decoder { start: prompt_len, generated: 0, max_tokens, stopped: false }
    }

    /// Whether the loop should sample another token: no end-of-sequence
    /// token has been sampled and fewer than `max_tokens` have been emitted.
    pub fn wants_token(&self) -> (r: bool)
        ensures
            r == self@.wants_token(),
            r == (!self@.stopped && self@.generated < self@.max_tokens),
    {
        !self.stopped && self.generated < self.max_tokens
    }

    /// Tokens emitted so far.
    pub fn generated(&self) -> (r: usize)
        ensures
            r == self@.generated,
    {
        self.generated
    }

    /// Take the next sampled token: an end-of-sequence token stops the loop;
    /// any other is emitted and fed back at the next position.
    pub fn step(&mut self, sampled: u32) -> (a: DecodeAction)
        requires
            old(self)@.wants_token(),
        ensures
            a == old(self)@.action(sampled),
            final(self)@ == old(self)@.after(sampled),
    {
        proof {
            use_type_invariant(&*self);
        }
        if is_eos(sampled) {
            self.stopped = true;
            DecodeAction::Stop
        } else {
            let pos = self.start + self.generated;
            self.generated = self.generated + 1;
            DecodeAction::Emit { token: sampled, pos }
        }
    }
}

/// Every token the decoder emits is fed back one position after the last:
/// after `k` emitted tokens the next goes to position `start + k`, and the
/// loop never asks for more than `max_tokens` tokens, nor for any after an
/// end-of-sequence token.
pub proof fn lemma_decoder_positions(d: DecoderView, sampled: u32)
    requires
        d.wants_token(),
    ensures
        !spec_is_eos(sampled) ==> d.action(sampled) == (DecodeAction::Emit { token: sampled, pos: (d.start + d.generated) as usize })
            && d.after(sampled).generated == d.generated + 1 && d.after(sampled).generated <= d.max_tokens,
        spec_is_eos(sampled) ==> d.action(sampled) == DecodeAction::Stop && !d.after(sampled).wants_token()
            && d.after(sampled).generated == d.generated,
        d.after(sampled).start == d.start,
        d.after(sampled).max_tokens == d.max_tokens,
{
}

/// The decoder after the samples `samples`, handed to it in order, starting
/// from `d`; samples after it stops asking are not handed over.
pub open spec fn after_all(d: DecoderView, samples: Seq<u32>) -> DecoderView
    decreases samples.len(),
{
    if samples.len() == 0 {
        d
    } else {
        let prev = after_all(d, samples.drop_last());
        if prev.wants_token() {
            prev.after(samples.last())
        } else {
            prev
        }
    }
}

/// Without an end-of-sequence token the decoder asks for a token exactly
/// while fewer than `max_tokens` have been emitted, each sample adds one
/// emitted token, and a run that samples no end-of-sequence id emits
/// `min(samples, max_tokens)` tokens: exactly `max_tokens` once it has been
/// offered that many samples.
pub proof fn lemma_emits_max_tokens(d: DecoderView, samples: Seq<u32>)
    requires
        !d.stopped,
        d.generated <= d.max_tokens,
        forall|k: int| 0 <= k < samples.len() ==> !spec_is_eos(#[trigger] samples[k]),
    ensures
        !d.stopped ==> (d.wants_token() <==> d.generated < d.max_tokens),
        !after_all(d, samples).stopped,
        after_all(d, samples).max_tokens == d.max_tokens,
        after_all(d, samples).start == d.start,
        after_all(d, samples).generated == if d.generated + samples.len() <= d.max_tokens {
            (d.generated + samples.len()) as int
        } else {
            d.max_tokens as int
        },
        after_all(d, samples).wants_token() <==> d.generated + samples.len() < d.max_tokens,
    decreases samples.len(),
{
    if samples.len() > 0 {
        let prefix = samples.drop_last();
        assert forall|k: int| 0 <= k < prefix.len() implies !spec_is_eos(#[trigger] prefix[k]) by {
            assert(prefix[k] == samples[k]);
        }
        lemma_emits_max_tokens(d, prefix);
        assert(!spec_is_eos(samples[samples.len() - 1]));
        let prev = after_all(d, prefix);
        if prev.wants_token() {
            assert(after_all(d, samples) == prev.after(samples.last()));
        } else {
            assert(after_all(d, samples) == prev);
        }
    }
}

/// An end-of-sequence sample stops the decoder for good: it emits nothing for
/// it and asks for nothing more, whatever follows.
pub proof fn lemma_eos_stops(d: DecoderView, eos: u32, samples: Seq<u32>)
    requires
        d.wants_token(),
        spec_is_eos(eos),
    ensures
        d.action(eos) == DecodeAction::Stop,
        after_all(d.after(eos), samples).generated == d.generated,
        !after_all(d.after(eos), samples).wants_token(),
    decreases samples.len(),
{
    if samples.len() > 0 {
        lemma_eos_stops(d, eos, samples.drop_last());
    }
}

/// The cache calls that feed one token to the model: stores of its key and
/// value (in any layers), then one move of the cursor.
pub open spec fn feeds_one_token(ops: Seq<CacheOp>) -> bool {
    &&& ops.len() > 0
    &&& ops.last() is Advance
    &&& forall|k: int| 0 <= k < ops.len() - 1 ==> #[trigger] ops[k] is Store
}

/// Stores alone move no cursor and clear nothing.
proof fn lemma_stores_only(ops: Seq<CacheOp>)
    requires
        forall|k: int| 0 <= k < ops.len() ==> #[trigger] ops[k] is Store,
    ensures
        advances_since_clear(ops) == 0,
        !has_clear(ops),
    decreases ops.len(),
{
    if ops.len() > 0 {
        let prefix = ops.drop_last();
        assert forall|k: int| 0 <= k < prefix.len() implies #[trigger] prefix[k] is Store by {
            assert(ops[k] is Store);
        }
        lemma_stores_only(prefix);
        assert(ops[ops.len() - 1] is Store);
    }
    if has_clear(ops) {
        let k = choose|k: int| 0 <= k < ops.len() && #[trigger] ops[k] is Clear;
        assert(ops[k] is Store);
    }
}

/// The position the decoder feeds each generated token at is the cache's
/// cursor, the slot its key and value are stored in: while the cache holds
/// the prompt and every emitted token, the next token goes to position
/// `len()`, and after its stores and one `advance` the cache again holds
/// exactly the prompt and the emitted tokens.
pub proof fn lemma_decoder_follows_cache(d: DecoderView, c: KvCacheView, sampled: u32, ops: Seq<CacheOp>)
    requires
        d.wants_token(),
        !spec_is_eos(sampled),
        c.valid(),
        c.len == d.start + d.generated,
        d.start + d.max_tokens <= usize::MAX,
        feeds_one_token(ops),
        replayable(c, ops),
    ensures
        d.action(sampled) == (DecodeAction::Emit { token: sampled, pos: c.len as usize }),
        replay(c, ops).len == d.after(sampled).start + d.after(sampled).generated,
{
    let stores = ops.drop_last();
    assert forall|k: int| 0 <= k < stores.len() implies #[trigger] stores[k] is Store by {
        assert(ops[k] is Store);
    }
    lemma_stores_only(stores);
    lemma_cursor_counts_advances(c, ops);
    if has_clear(ops) {
        let k = choose|k: int| 0 <= k < ops.len() && #[trigger] ops[k] is Clear;
        if k < ops.len() - 1 {
            assert(stores[k] is Clear);
        }
    }
}

/// The seed a clock reading gives: the low 64 bits of the nanoseconds since
/// the Unix epoch, or a fixed value when the clock reads before the epoch.
pub open spec fn spec_seed_from_nanos(nanos: Option<u128>) -> u64 {
    match nanos {
        Some(n) => n as u64,
        None => 0x1234_5678,
    }
}

/// The sampler's seed for a clock reading of `nanos` nanoseconds since the
/// Unix epoch (`None` when the clock reads before it).
pub fn seed_from_nanos(nanos: Option<u128>) -> (r: u64)
    ensures
        r == spec_seed_from_nanos(nanos),
{
    match nanos {
        Some(n) => n as u64,
        None => 0x1234_5678,
    }
}

#[verifier::external_type_specification]
#[verifier::external_body]
pub struct ExSystemTime(SystemTime);

/// Calls `std::time::SystemTime::now`: the current wall-clock time. Nothing
/// is stated of it.
#[verifier::external_body]
fn system_now() -> SystemTime {
    SystemTime::now()
}

/// Calls `SystemTime::duration_since` with `UNIX_EPOCH`, turning its error (a
/// time before the epoch) into `None`. Nothing is stated of the duration: it
/// rests on the clock.
#[verifier::external_body]
fn since_unix_epoch(t: &SystemTime) -> Option<Duration> {
    t.duration_since(UNIX_EPOCH).ok()
}

/// Calls `std::time::Duration::as_nanos`: the whole duration in nanoseconds.
/// Nothing is stated of it, as a `Duration` is opaque here.
#[verifier::external_body]
fn duration_nanos(d: &Duration) -> u128 {
    d.as_nanos()
}

/// A time-based seed for the sampler's random number generator.
///
/// What comes back rests on the clock, so nothing is stated of it beyond what
/// [`seed_from_nanos`] makes of the reading.
pub fn seed() -> u64 {
    let now = system_now();
    let nanos = match since_unix_epoch(&now) {
        Some(d) => Some(duration_nanos(&d)),
        None => None,
    };
    seed_from_nanos(nanos)
}

} // verus!
