//! The key/value cache of grouped-query self-attention.
//!
//! At decode time each new token attends over every previous token, so the
//! keys and values of the whole sequence are cached and only the new token's
//! projections are computed each step. Grouped-query attention lets several
//! query heads share one key/value head, so the cache stores only
//! `num_key_value_heads * head_dim` numbers per token and per layer.
//!
//! The cache holds the bit patterns of the `f32` keys and values: storing and
//! reading them back is an exact copy.

use vstd::prelude::*;
use crate::config::Config;

verus! {

/// What a [`KvCache`] holds, as mathematical values.
pub struct KvCacheView {
    /// For each layer, its key stream: `max_seq * kv_dim` entries, token `pos`
    /// at `[pos * kv_dim, (pos + 1) * kv_dim)`.
    pub keys: Seq<Seq<u32>>,
    /// For each layer, its value stream, laid out as the keys.
    pub values: Seq<Seq<u32>>,
    /// Entries per token: `num_key_value_heads * head_dim`.
    pub kv_dim: nat,
    /// Tokens the cache has room for.
    pub max_seq: nat,
    /// Tokens cached so far: the write cursor.
    pub len: nat,
}

/// `s` with `w` written over it from index `off` on.
pub open spec fn overwrite(s: Seq<u32>, off: int, w: Seq<u32>) -> Seq<u32> {
    Seq::new(s.len(), |i: int| if off <= i < off + w.len() { w[i - off] } else { s[i] })
}

impl KvCacheView {
    /// Number of layers.
    pub open spec fn layers(self) -> nat {
        self.keys.len()
    }

    /// The shape every cache keeps: one key and one value stream per layer,
    /// each with room for `max_seq` tokens, and a cursor within that room.
    pub open spec fn valid(self) -> bool {
        &&& self.values.len() == self.keys.len()
        &&& forall|l: int| 0 <= l < self.keys.len() ==> #[trigger] self.keys[l].len() == self.max_seq * self.kv_dim
        &&& forall|l: int| 0 <= l < self.values.len() ==> #[trigger] self.values[l].len() == self.max_seq * self.kv_dim
        &&& self.len <= self.max_seq
    }

    /// The cache after writing `key` and `value` for `layer` at the cursor.
    pub open spec fn stored(self, layer: int, key: Seq<u32>, value: Seq<u32>) -> KvCacheView {
        let off = (self.len * self.kv_dim) as int;
        KvCacheView {
            keys: self.keys.update(layer, overwrite(self.keys[layer], off, key)),
            values: self.values.update(layer, overwrite(self.values[layer], off, value)),
            ..self
        }
    }

    /// The cache after moving the cursor on by one token.
    pub open spec fn advanced(self) -> KvCacheView {
        KvCacheView { len: self.len + 1, ..self }
    }

    /// The cache after resetting the cursor, with its buffers untouched.
    pub open spec fn cleared(self) -> KvCacheView {
        KvCacheView { len: 0, ..self }
    }

    /// What `store` asks of its arguments: an existing layer, a slot at the
    /// cursor that lies within the buffers, and a key and a value of one
    /// token's width.
    pub open spec fn can_store(self, layer: int, key: Seq<u32>, value: Seq<u32>) -> bool {
        &&& 0 <= layer < self.layers()
        &&& (self.len + 1) * self.kv_dim <= self.max_seq * self.kv_dim
        &&& key.len() == self.kv_dim
        &&& value.len() == self.kv_dim
    }
}

/// Writing a token's key and value and reading its slot back gives what was
/// written, and the cache keeps its shape.
pub proof fn lemma_store_reads_back(c: KvCacheView, layer: int, key: Seq<u32>, value: Seq<u32>)
    requires
        c.valid(),
        c.can_store(layer, key, value),
    ensures
        c.stored(layer, key, value).valid(),
        forall|i: int| 0 <= i < c.kv_dim ==>
            #[trigger] c.stored(layer, key, value).keys[layer][c.len * c.kv_dim + i] == key[i],
        forall|i: int| 0 <= i < c.kv_dim ==>
            #[trigger] c.stored(layer, key, value).values[layer][c.len * c.kv_dim + i] == value[i],
{
    lemma_slot_offset(c.len as int, c.kv_dim as int);
    let s = c.stored(layer, key, value);
    assert forall|l: int| 0 <= l < s.keys.len() implies #[trigger] s.keys[l].len() == s.max_seq * s.kv_dim by {
        if l != layer {
            assert(s.keys[l] == c.keys[l]);
        }
    }
    assert forall|l: int| 0 <= l < s.values.len() implies #[trigger] s.values[l].len() == s.max_seq * s.kv_dim by {
        if l != layer {
            assert(s.values[l] == c.values[l]);
        }
    }
}

/// Storing the current token touches nothing but its own slot in its own
/// layer: the keys and values of every token cached before it, in every
/// layer, stay as they were.
pub proof fn lemma_store_keeps_cached_tokens(c: KvCacheView, layer: int, key: Seq<u32>, value: Seq<u32>)
    requires
        c.valid(),
        c.can_store(layer, key, value),
    ensures
        forall|l: int, j: int| 0 <= l < c.layers() && 0 <= j < c.len * c.kv_dim ==>
            #[trigger] c.stored(layer, key, value).keys[l][j] == c.keys[l][j],
        forall|l: int, j: int| 0 <= l < c.layers() && 0 <= j < c.len * c.kv_dim ==>
            #[trigger] c.stored(layer, key, value).values[l][j] == c.values[l][j],
        forall|l: int| 0 <= l < c.layers() && l != layer ==>
            #[trigger] c.stored(layer, key, value).keys[l] == c.keys[l],
        forall|l: int| 0 <= l < c.layers() && l != layer ==>
            #[trigger] c.stored(layer, key, value).values[l] == c.values[l],
{
    lemma_slot_offset(c.len as int, c.kv_dim as int);
}

/// Moving the cursor on, and resetting it, leave every stored key and value
/// in place; a valid cache stays valid.
pub proof fn lemma_cursor_moves_keep_buffers(c: KvCacheView)
    requires
        c.valid(),
    ensures
        c.cleared().valid(),
        c.cleared().keys == c.keys,
        c.cleared().values == c.values,
        c.cleared().len == 0,
        c.len < c.max_seq ==> c.advanced().valid(),
        c.advanced().keys == c.keys,
        c.advanced().values == c.values,
        c.advanced().len == c.len + 1,
{
}

/// One call that changes a [`KvCache`].
pub enum CacheOp {
    /// `store(layer, key, value)`.
    Store { layer: int, key: Seq<u32>, value: Seq<u32> },
    /// `advance()`.
    Advance,
    /// `clear()`.
    Clear,
}

impl KvCacheView {
    /// The cache after `op`, as the call's contract gives it.
    pub open spec fn apply(self, op: CacheOp) -> KvCacheView {
        match op {
            CacheOp::Store { layer, key, value } => self.stored(layer, key, value),
            CacheOp::Advance => self.advanced(),
            CacheOp::Clear => self.cleared(),
        }
    }

    /// Whether the call `op` may be made on this cache.
    pub open spec fn allows(self, op: CacheOp) -> bool {
        match op {
            CacheOp::Store { layer, key, value } => self.can_store(layer, key, value),
            CacheOp::Advance => self.len < self.max_seq,
            CacheOp::Clear => true,
        }
    }
}

/// The cache after the calls `ops`, made in order, starting from `c`.
pub open spec fn replay(c: KvCacheView, ops: Seq<CacheOp>) -> KvCacheView
    decreases ops.len(),
{
    if ops.len() == 0 {
        c
    } else {
        replay(c, ops.drop_last()).apply(ops.last())
    }
}

/// Whether each of the calls `ops`, made in order from `c`, may be made.
pub open spec fn replayable(c: KvCacheView, ops: Seq<CacheOp>) -> bool
    decreases ops.len(),
{
    if ops.len() == 0 {
        true
    } else {
        replayable(c, ops.drop_last()) && replay(c, ops.drop_last()).allows(ops.last())
    }
}

/// Whether `ops` holds a `clear` call.
pub open spec fn has_clear(ops: Seq<CacheOp>) -> bool {
    exists|k: int| 0 <= k < ops.len() && #[trigger] ops[k] is Clear
}

/// The number of `advance` calls in `ops` after its last `clear` (all of
/// them, where there is none).
pub open spec fn advances_since_clear(ops: Seq<CacheOp>) -> nat
    decreases ops.len(),
{
    if ops.len() == 0 {
        0
    } else {
        match ops.last() {
            CacheOp::Clear => 0,
            CacheOp::Advance => advances_since_clear(ops.drop_last()) + 1,
            CacheOp::Store { .. } => advances_since_clear(ops.drop_last()),
        }
    }
}

/// The key and value that the last `store` at token `t` of layer `l` wrote,
/// among the calls `ops` made in order from `c`; `None` when no call stored
/// there.
pub open spec fn last_stored(c: KvCacheView, ops: Seq<CacheOp>, l: int, t: int) -> Option<(Seq<u32>, Seq<u32>)>
    decreases ops.len(),
{
    if ops.len() == 0 {
        None
    } else {
        let prev = replay(c, ops.drop_last());
        match ops.last() {
            CacheOp::Store { layer, key, value } => if layer == l && prev.len == t {
                Some((key, value))
            } else {
                last_stored(c, ops.drop_last(), l, t)
            },
            _ => last_stored(c, ops.drop_last(), l, t),
        }
    }
}

/// Over any sequence of calls that may be made, the cache keeps its shape,
/// and its cursor counts the `advance` calls since the last `clear`: from a
/// new cache, `len()` is the number of `advance` calls since the last
/// `clear` (or since `new`), and never passes the capacity.
pub proof fn lemma_cursor_counts_advances(c: KvCacheView, ops: Seq<CacheOp>)
    requires
        c.valid(),
        replayable(c, ops),
    ensures
        replay(c, ops).valid(),
        replay(c, ops).layers() == c.layers(),
        replay(c, ops).kv_dim == c.kv_dim,
        replay(c, ops).max_seq == c.max_seq,
        replay(c, ops).len == (if has_clear(ops) { 0 } else { c.len }) + advances_since_clear(ops),
        replay(c, ops).len <= c.max_seq,
    decreases ops.len(),
{
    if ops.len() > 0 {
        let prefix = ops.drop_last();
        lemma_cursor_counts_advances(c, prefix);
        let prev = replay(c, prefix);
        match ops.last() {
            CacheOp::Store { layer, key, value } => {
                lemma_store_reads_back(prev, layer, key, value);
            },
            _ => {},
        }
        if ops.last() is Clear {
            assert(ops[ops.len() - 1] is Clear);
        } else {
            assert(has_clear(ops) == has_clear(prefix)) by {
                if has_clear(ops) {
                    let k = choose|k: int| 0 <= k < ops.len() && #[trigger] ops[k] is Clear;
                    assert(prefix[k] is Clear);
                }
                if has_clear(prefix) {
                    let k = choose|k: int| 0 <= k < prefix.len() && #[trigger] prefix[k] is Clear;
                    assert(ops[k] is Clear);
                }
            }
        }
    }
}

/// Over any sequence of calls that may be made, every slot of every layer
/// holds the key and value last stored there, or what it held at the start
/// where nothing was stored there since. Reading the cache after a history of
/// calls gives back, for each position, the last write to it.
pub proof fn lemma_slots_hold_last_store(c: KvCacheView, ops: Seq<CacheOp>, l: int, t: int, i: int)
    requires
        c.valid(),
        replayable(c, ops),
        0 <= l < c.layers(),
        0 <= t < c.max_seq,
        0 <= i < c.kv_dim,
    ensures
        replay(c, ops).keys[l][t * c.kv_dim + i] == match last_stored(c, ops, l, t) {
            Some(kv) => kv.0[i],
            None => c.keys[l][t * c.kv_dim + i],
        },
        replay(c, ops).values[l][t * c.kv_dim + i] == match last_stored(c, ops, l, t) {
            Some(kv) => kv.1[i],
            None => c.values[l][t * c.kv_dim + i],
        },
    decreases ops.len(),
{
    if ops.len() > 0 {
        let prefix = ops.drop_last();
        lemma_slots_hold_last_store(c, prefix, l, t, i);
        lemma_cursor_counts_advances(c, prefix);
        let prev = replay(c, prefix);
        lemma_entry_in_stream(t, c.max_seq as int, c.kv_dim as int, i);
        match ops.last() {
            CacheOp::Store { layer, key, value } => {
                lemma_slot_index(t, prev.len as int, c.kv_dim as int, i);
                lemma_slot_offset(prev.len as int, c.kv_dim as int);
                if layer == l && prev.len == t {
                    assert(t * c.kv_dim + i - prev.len * c.kv_dim == i);
                }
            },
            _ => {},
        }
    }
}

/// Per-layer cache of past keys and values.
///
/// Each layer's buffer is laid out as `[pos * kv_dim + i]`, where
/// `kv_dim = num_key_value_heads * head_dim`.
pub struct KvCache {
    keys: Vec<Vec<u32>>,
    values: Vec<Vec<u32>>,
    kv_dim: usize,
    max_seq: usize,
    len: usize,
}

impl View for KvCache {
    type V = KvCacheView;

    closed spec fn view(&self) -> KvCacheView {
        KvCacheView {
            keys: self.keys@.map_values(|v: Vec<u32>| v@),
            values: self.values@.map_values(|v: Vec<u32>| v@),
            kv_dim: self.kv_dim as nat,
            max_seq: self.max_seq as nat,
            len: self.len as nat,
        }
    }
}

/// The slot of the token at `len` starts at `len * kv_dim` and ends
/// `kv_dim` entries later.
proof fn lemma_slot_offset(len: int, kv_dim: int)
    requires
        0 <= len,
        0 <= kv_dim,
    ensures
        0 <= len * kv_dim,
        (len + 1) * kv_dim == len * kv_dim + kv_dim,
{
    assert((len + 1) * kv_dim == len * kv_dim + kv_dim) by (nonlinear_arith);
    assert(0 <= len * kv_dim) by (nonlinear_arith)
        requires
            0 <= len,
            0 <= kv_dim,
    ;
}

/// Entry `t * kv_dim + i` of a stream, with `i < kv_dim`, lies in the slot of
/// token `p` exactly when `t == p`.
proof fn lemma_slot_index(t: int, p: int, kv_dim: int, i: int)
    requires
        0 <= t,
        0 <= p,
        0 <= i < kv_dim,
    ensures
        (p * kv_dim <= t * kv_dim + i < p * kv_dim + kv_dim) <==> t == p,
{
    if t < p {
        assert(t * kv_dim + kv_dim <= p * kv_dim) by (nonlinear_arith)
            requires
                t < p,
                0 <= kv_dim,
        ;
    } else if t > p {
        assert(p * kv_dim + kv_dim <= t * kv_dim) by (nonlinear_arith)
            requires
                t > p,
                0 <= kv_dim,
        ;
    }
}

/// Entry `t * kv_dim + i` of a stream of `max_seq` tokens, with `t < max_seq`
/// and `i < kv_dim`, lies inside it.
proof fn lemma_entry_in_stream(t: int, max_seq: int, kv_dim: int, i: int)
    requires
        0 <= t < max_seq,
        0 <= i < kv_dim,
    ensures
        0 <= t * kv_dim + i < max_seq * kv_dim,
{
    assert(t * kv_dim + kv_dim <= max_seq * kv_dim) by (nonlinear_arith)
        requires
            t < max_seq,
            0 <= kv_dim,
    ;
    assert(0 <= t * kv_dim) by (nonlinear_arith)
        requires
            0 <= t,
            0 <= kv_dim,
    ;
}

/// Copy the `n` entries of `src` into row `layer` of `rows` from index `off`
/// on.
fn write_row(rows: &mut Vec<Vec<u32>>, layer: usize, off: usize, src: &[u32], n: usize)
    requires
        n == src@.len(),
        layer < old(rows)@.len(),
        off + src@.len() <= old(rows)@[layer as int]@.len(),
    ensures
        final(rows)@.len() == old(rows)@.len(),
        forall|l: int| 0 <= l < old(rows)@.len() && l != layer ==> #[trigger] final(rows)@[l] == old(rows)@[l],
        final(rows)@[layer as int]@ == overwrite(old(rows)@[layer as int]@, off as int, src@),
    no_unwind
{
    write_at(&mut rows[layer], off, src, n);
}

/// Copy the `n` entries of `src` into `buf` from index `off` on.
fn write_at(buf: &mut Vec<u32>, off: usize, src: &[u32], n: usize)
    requires
        n == src@.len(),
        off + src@.len() <= old(buf)@.len(),
    ensures
        final(buf)@ == overwrite(old(buf)@, off as int, src@),
    no_unwind
{
    let ghost b0 = buf@;
    let blen = buf.len();
    let mut i: usize = 0;
    while i < n
        invariant
            0 <= i <= n,
            n == src@.len(),
            blen == b0.len(),
            off + n <= b0.len(),
            buf@ == overwrite(b0, off as int, src@.take(i as int)),
        decreases n - i,
    {
        buf[off + i] = src[i];
        i = i + 1;
        assert(buf@ =~= overwrite(b0, off as int, src@.take(i as int)));
    }
    assert(src@.take(n as int) =~= src@);
}

/// A zeroed stream of `n` entries for each of `layers` layers.
fn zeroed_streams(layers: usize, n: usize) -> (r: Vec<Vec<u32>>)
    ensures
        r@.len() == layers,
        forall|l: int| 0 <= l < layers ==> #[trigger] r@[l]@ == Seq::new(n as nat, |i: int| 0u32),
{
    let mut r: Vec<Vec<u32>> = Vec::new();
    for l in 0..layers
        invariant
            r@.len() == l,
            forall|j: int| 0 <= j < l ==> #[trigger] r@[j]@ == Seq::new(n as nat, |i: int| 0u32),
    {
        let mut s: Vec<u32> = Vec::new();
        for i in 0..n
            invariant
                s@ == Seq::new(i as nat, |k: int| 0u32),
        {
            s.push(0);
        }
        r.push(s);
    }
    r
}

impl KvCache {
    #[verifier::type_invariant]
    closed spec fn inv(self) -> bool {
        &&& self.keys@.len() == self.values@.len()
        &&& forall|l: int| 0 <= l < self.keys@.len() ==> #[trigger] self.keys@[l]@.len() == self.max_seq * self.kv_dim
        &&& forall|l: int| 0 <= l < self.values@.len() ==> #[trigger] self.values@[l]@.len() == self.max_seq * self.kv_dim
        &&& self.len <= self.max_seq
    }

    /// Allocate a zeroed cache for `config`'s layers and a `max_seq`-token
    /// context, with no token cached yet.
    pub fn new(config: &Config, max_seq: usize) -> (c: Self)
        requires
            config.has_kv_dim(),
            max_seq * config.spec_kv_dim() <= usize::MAX,
        ensures
            c@.layers() == config.num_hidden_layers,
            c@.kv_dim == config.spec_kv_dim(),
            c@.max_seq == max_seq,
            c@.len == 0,
            c@.valid(),
            forall|l: int| 0 <= l < c@.layers() ==> #[trigger] c@.keys[l] == Seq::new((max_seq * c@.kv_dim) as nat, |i: int| 0u32),
            forall|l: int| 0 <= l < c@.layers() ==> #[trigger] c@.values[l] == Seq::new((max_seq * c@.kv_dim) as nat, |i: int| 0u32),
    {
        let kv_dim = config.kv_dim();
        let layers = config.num_hidden_layers;
        let n = max_seq * kv_dim;
        let keys = zeroed_streams(layers, n);
        let values = zeroed_streams(layers, n);
        KvCache { keys, values, kv_dim, max_seq, len: 0 }
    }

    /// Number of tokens currently cached.
    pub fn len(&self) -> (r: usize)
        ensures
            r == self@.len,
    {
        self.len
    }

    /// Tokens the cache has room for.
    pub fn capacity(&self) -> (r: usize)
        ensures
            r == self@.max_seq,
    {
        self.max_seq
    }

    /// Entries per token in each stream.
    pub fn kv_dim(&self) -> (r: usize)
        ensures
            r == self@.kv_dim,
    {
        self.kv_dim
    }

    /// Number of layers the cache has streams for.
    pub fn num_layers(&self) -> (r: usize)
        ensures
            r == self@.layers(),
    {
        self.keys.len()
    }

    /// Whether the cache holds no tokens yet.
    pub fn is_empty(&self) -> (r: bool)
        ensures
            r == (self@.len == 0),
    {
        self.len == 0
    }

    /// The key stream for `layer` (`len * kv_dim` of its entries are tokens
    /// stored so far).
    pub fn keys(&self, layer: usize) -> (r: &[u32])
        requires
            layer < self@.layers(),
        ensures
            r@ == self@.keys[layer as int],
            self@.valid(),
    {
        proof {
            use_type_invariant(self);
        }
        self.keys[layer].as_slice()
    }

    /// The value stream for `layer`.
    pub fn values(&self, layer: usize) -> (r: &[u32])
        requires
            layer < self@.layers(),
        ensures
            r@ == self@.values[layer as int],
            self@.valid(),
    {
        proof {
            use_type_invariant(self);
        }
        self.values[layer].as_slice()
    }

    /// Write this step's key and value for `layer` at the current position.
    pub fn store(&mut self, layer: usize, key: &[u32], value: &[u32])
        requires
            old(self)@.can_store(layer as int, key@, value@),
        ensures
            final(self)@ == old(self)@.stored(layer as int, key@, value@),
            final(self)@.valid(),
    {
        proof {
            use_type_invariant(&*self);
            lemma_slot_offset(self.len as int, self.kv_dim as int);
        }
        let ghost c = self@;
        assert(c.keys[layer as int] == self.keys@[layer as int]@);
        assert(c.values[layer as int] == self.values@[layer as int]@);
        let stream_len = self.keys[layer].len();
        assert(self.len * self.kv_dim + self.kv_dim <= stream_len);
        let off = self.len * self.kv_dim;
        let kv_dim = self.kv_dim;
        write_row(&mut self.keys, layer, off, key, kv_dim);
        write_row(&mut self.values, layer, off, value, kv_dim);
        proof {
            assert(self@.keys =~= c.stored(layer as int, key@, value@).keys);
            assert(self@.values =~= c.stored(layer as int, key@, value@).values);
            use_type_invariant(&*self);
        }
    }

    /// Advance the write cursor by one token, after every layer has stored
    /// its key and value for this step.
    pub fn advance(&mut self)
        requires
            old(self)@.len < old(self)@.max_seq,
        ensures
            final(self)@ == old(self)@.advanced(),
            final(self)@.valid(),
    {
        proof {
            use_type_invariant(&*self);
        }
        self.len = self.len + 1;
        proof {
            assert(self@.keys =~= old(self)@.keys);
            assert(self@.values =~= old(self)@.values);
            use_type_invariant(&*self);
        }
    }

    /// Reset for a fresh sequence without reallocating: the cursor goes back
    /// to the start and the buffers keep their contents.
    pub fn clear(&mut self)
        ensures
            final(self)@ == old(self)@.cleared(),
            final(self)@.valid(),
    {
        proof {
            use_type_invariant(&*self);
        }
        self.len = 0;
        proof {
            assert(self@.keys =~= old(self)@.keys);
            assert(self@.values =~= old(self)@.values);
            use_type_invariant(&*self);
        }
    }
}

} // verus!
