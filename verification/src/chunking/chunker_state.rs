//! The chunker state machine: where a stream of bytes is cut into chunks.
//!
//! The model is a step per byte. A byte is skipped, fed to the rolling hash,
//! or fed and then tested against a mask, depending only on how many bytes
//! the chunk under construction already holds.

use vstd::prelude::*;
use vstd::arithmetic::power2::{lemma_pow2_strictly_increases, lemma_pow2_unfold, pow2};

use crate::chunking::aes_gear::{gear_digest, gear_update, AesGearConfig, AesGearHash};

verus! {

/// The parameters of a chunker as mathematical values.
pub struct ChunkerParams {
    /// The substitution table of the rolling hash.
    pub table: Seq<u64>,
    /// The AES-128 key of the rolling hash.
    pub key: Seq<u8>,
    /// No chunk but the last one of a stream is shorter than this.
    pub min_size: nat,
    /// The size around which chunk lengths concentrate.
    pub avg_size: nat,
    /// No chunk is longer than this.
    pub max_size: nat,
    /// The mask tested while a chunk is shorter than `avg_size`.
    pub before_mask: u64,
    /// The mask tested once a chunk has reached `avg_size`.
    pub after_mask: u64,
}

/// How far the chunk under construction has come.
pub struct Progress {
    /// Number of bytes in the chunk under construction.
    pub size: nat,
    /// The gear register.
    pub register: u64,
}

/// The mask with the lowest `shift + 1` bits set.
pub open spec fn boundary_mask(shift: nat) -> u64 {
    ((2u64 << (shift as u64)) - 1) as u64
}

/// Whether `avg_size` is two to the power `log2_avg`, and the two masks have
/// room in 64 bits.
pub open spec fn valid_average(avg_size: nat, normalization_bits: nat, log2_avg: nat) -> bool {
    &&& avg_size == pow2(log2_avg)
    &&& normalization_bits < log2_avg
    &&& log2_avg + normalization_bits <= 62
}

/// Whether the four numbers describe a chunker: the average is a power of
/// two whose exponent exceeds the normalization bits, the minimum is at
/// least 64, and neither the minimum nor the average exceeds the maximum.
pub open spec fn valid_sizes(
    min_size: nat,
    avg_size: nat,
    max_size: nat,
    normalization_bits: nat,
) -> bool {
    &&& 64 <= min_size <= max_size
    &&& avg_size <= max_size
    &&& exists|log2_avg: nat| valid_average(avg_size, normalization_bits, log2_avg)
}

/// The exponent of a power of two.
pub open spec fn log2_of(avg_size: nat) -> nat {
    choose|log2_avg: nat| avg_size == pow2(log2_avg)
}

impl ChunkerParams {
    /// What every chunker's parameters satisfy.
    pub open spec fn well_formed(self) -> bool {
        &&& self.table.len() == 256
        &&& 64 <= self.min_size <= self.max_size
        &&& self.avg_size <= self.max_size
    }

    /// Whether the byte that arrives when the chunk holds `size` bytes is fed
    /// to the rolling hash: only the last 64 bytes before the minimum size
    /// and all later ones are.
    pub open spec fn feeds(self, size: nat) -> bool {
        size + 64 >= self.min_size
    }

    /// The register after the byte `byte` has arrived.
    pub open spec fn next_register(self, at: Progress, byte: u8) -> u64 {
        if self.feeds(at.size) {
            gear_update(self.table, at.register, byte)
        } else {
            at.register
        }
    }

    /// The mask that applies when the chunk holds `size` bytes.
    pub open spec fn mask_at(self, size: nat) -> u64 {
        if size < self.avg_size {
            self.before_mask
        } else {
            self.after_mask
        }
    }

    /// Whether the chunk ends with the byte `byte`: the chunk has reached its
    /// minimum size with it, and the hash meets the mask or the chunk has
    /// reached its maximum size.
    pub open spec fn is_boundary(self, at: Progress, byte: u8) -> bool {
        &&& at.size + 1 >= self.min_size
        &&& (gear_digest(self.key, self.next_register(at, byte)) & self.mask_at(at.size) == 0
            || at.size + 1 >= self.max_size)
    }

    /// The progress after the byte `byte` has arrived.
    pub open spec fn advance(self, at: Progress, byte: u8) -> Progress {
        Progress {
            size: if self.is_boundary(at, byte) {
                0
            } else {
                at.size + 1
            },
            register: self.next_register(at, byte),
        }
    }

    /// The number of bytes of `input` up to and including the first byte
    /// that ends a chunk, if there is one.
    pub open spec fn first_cut(self, at: Progress, input: Seq<u8>) -> Option<nat>
        decreases input.len(),
    {
        if input.len() == 0 {
            None
        } else if self.is_boundary(at, input[0]) {
            Some(1nat)
        } else {
            match self.first_cut(self.advance(at, input[0]), input.drop_first()) {
                Some(n) => Some(n + 1),
                None => None,
            }
        }
    }

    /// The progress after `input` has been consumed up to and including the
    /// first byte that ends a chunk, or entirely if there is none.
    pub open spec fn run(self, at: Progress, input: Seq<u8>) -> Progress
        decreases input.len(),
    {
        if input.len() == 0 {
            at
        } else if self.is_boundary(at, input[0]) {
            self.advance(at, input[0])
        } else {
            self.run(self.advance(at, input[0]), input.drop_first())
        }
    }
}

/// `cut` moved right by `by` bytes.
pub open spec fn shifted(cut: Option<nat>, by: nat) -> Option<nat> {
    match cut {
        Some(n) => Some(n + by),
        None => None,
    }
}

/// Bytes that are skipped change nothing but the size of the chunk.
pub proof fn lemma_skip(params: ChunkerParams, at: Progress, input: Seq<u8>, count: nat)
    requires
        at.size + count + 64 <= params.min_size,
        count <= input.len(),
    ensures
        params.first_cut(at, input) == shifted(
            params.first_cut(
                Progress { size: at.size + count, register: at.register },
                input.skip(count as int),
            ),
            count,
        ),
        params.run(at, input) == params.run(
            Progress { size: at.size + count, register: at.register },
            input.skip(count as int),
        ),
    decreases count,
{
    if count == 0 {
        assert(input.skip(0) =~= input);
    } else {
        let next = params.advance(at, input[0]);
        assert(!params.is_boundary(at, input[0]));
        assert(next == Progress { size: at.size + 1, register: at.register });
        lemma_skip(params, next, input.drop_first(), (count - 1) as nat);
        assert(input.drop_first().skip(count - 1) =~= input.skip(count as int));
    }
}

/// A chunk is cut only between its minimum and its maximum size, and a
/// chunk that has not been cut is shorter than the maximum.
pub proof fn lemma_cut_bounds(params: ChunkerParams, at: Progress, input: Seq<u8>)
    requires
        params.well_formed(),
        at.size < params.max_size,
    ensures
        match params.first_cut(at, input) {
            Some(n) => 1 <= n <= input.len() && params.min_size <= at.size + n <= params.max_size
                && params.run(at, input).size == 0,
            None => params.run(at, input).size == at.size + input.len() && at.size + input.len()
                < params.max_size,
        },
    decreases input.len(),
{
    if input.len() > 0 && !params.is_boundary(at, input[0]) {
        lemma_cut_bounds(params, params.advance(at, input[0]), input.drop_first());
    }
}

/// Consuming `left + right` in one go finds the same cut and ends in the
/// same state as consuming `left` and then, if no cut was found, `right`.
pub proof fn lemma_cut_split(params: ChunkerParams, at: Progress, left: Seq<u8>, right: Seq<u8>)
    ensures
        params.first_cut(at, left + right) == match params.first_cut(at, left) {
            Some(n) => Some(n),
            None => shifted(params.first_cut(params.run(at, left), right), left.len()),
        },
        params.run(at, left + right) == match params.first_cut(at, left) {
            Some(n) => params.run(at, left),
            None => params.run(params.run(at, left), right),
        },
    decreases left.len(),
{
    if left.len() == 0 {
        assert(left + right =~= right);
    } else {
        let whole = left + right;
        assert(whole[0] == left[0]);
        assert(whole.drop_first() =~= left.drop_first() + right);
        if !params.is_boundary(at, left[0]) {
            lemma_cut_split(params, params.advance(at, left[0]), left.drop_first(), right);
        }
    }
}

/// The sizes and masks of a chunker, together with its rolling hash.
pub struct ChunkerConfig<'a> {
    gear_config: AesGearConfig<'a>,
    min_size: usize,
    avg_size: usize,
    max_size: usize,
    before_avg_size_mask: u64,
    after_avg_size_mask: u64,
}

impl<'a> ChunkerConfig<'a> {
    /// The parameters as mathematical values.
    pub closed spec fn params(&self) -> ChunkerParams {
        ChunkerParams {
            table: self.gear_config.table(),
            key: self.gear_config.key(),
            min_size: self.min_size as nat,
            avg_size: self.avg_size as nat,
            max_size: self.max_size as nat,
            before_mask: self.before_avg_size_mask,
            after_mask: self.after_avg_size_mask,
        }
    }

    #[verifier::type_invariant]
    spec fn inv(&self) -> bool {
        self.params().well_formed()
    }

    /// The smallest size of a chunk that is not the last of its stream.
    pub fn min_size(&self) -> (size: usize)
        ensures
            size == self.params().min_size,
            self.params().well_formed(),
    {
        proof {
            use_type_invariant(self);
        }
        self.min_size
    }

    /// The size around which chunk lengths concentrate.
    pub fn avg_size(&self) -> (size: usize)
        ensures
            size == self.params().avg_size,
            self.params().well_formed(),
    {
        proof {
            use_type_invariant(self);
        }
        self.avg_size
    }

    /// The largest size of a chunk.
    pub fn max_size(&self) -> (size: usize)
        ensures
            size == self.params().max_size,
            self.params().well_formed(),
    {
        proof {
            use_type_invariant(self);
        }
        self.max_size
    }

    /// The exponent of `avg_size` if it is a power of two within reach of
    /// the masks, found by doubling.
    fn log2_avg(avg_size: usize, normalization_bits: u32) -> (res: Option<u32>)
        ensures
            match res {
                Some(k) => valid_average(avg_size as nat, normalization_bits as nat, k as nat),
                None => forall|k: nat| !valid_average(avg_size as nat, normalization_bits as nat, k),
            },
    {
        let mut exponent: u32 = 0;
        let mut power: u64 = 1;
        assert(pow2(0) == 1) by {
            vstd::arithmetic::power2::lemma2_to64();
        }
        while power < avg_size as u64 && exponent < 62
            invariant
                exponent <= 62,
                power == pow2(exponent as nat),
                power <= 0x4000_0000_0000_0000,
                exponent > 0 ==> pow2((exponent - 1) as nat) < avg_size,
            decreases 62 - exponent,
        {
            proof {
                lemma_pow2_unfold((exponent + 1) as nat);
                vstd::arithmetic::power2::lemma2_to64_rest();
                if exponent < 61 {
                    lemma_pow2_strictly_increases((exponent + 1) as nat, 62);
                }
            }
            power = power * 2;
            exponent = exponent + 1;
        }
        if power == avg_size as u64 && normalization_bits < exponent && normalization_bits <= 62
            - exponent {
            Some(exponent)
        } else {
            proof {
                assert forall|k: nat|
                    !valid_average(avg_size as nat, normalization_bits as nat, k) by {
                    if valid_average(avg_size as nat, normalization_bits as nat, k) {
                        // pow2 is strictly increasing, so `k` must be `exponent`.
                        if k < exponent {
                            if k < exponent - 1 {
                                lemma_pow2_strictly_increases(k, (exponent - 1) as nat);
                            }
                        } else if k > exponent {
                            lemma_pow2_strictly_increases(exponent as nat, k);
                        }
                    }
                }
            }
            None
        }
    }

    /// The mask with the lowest `shift + 1` bits set.
    fn mask(shift: u32) -> (mask: u64)
        requires
            shift <= 62,
        ensures
            mask == boundary_mask(shift as nat),
    {
        let shift = shift as u64;
        assert((2u64 << shift) >= 2) by (bit_vector)
            requires
                shift <= 62,
        ;
        (2u64 << shift) - 1
    }

    /// A configuration for the given sizes, or `None` if they are not valid.
    pub fn try_new(
        gear_config: AesGearConfig<'a>,
        min_size: usize,
        avg_size: usize,
        max_size: usize,
        normalization_bits: u32,
    ) -> (res: Option<Self>)
        ensures
            res is Some <==> valid_sizes(
                min_size as nat,
                avg_size as nat,
                max_size as nat,
                normalization_bits as nat,
            ),
            res matches Some(config) ==> config.params() == (ChunkerParams {
                table: gear_config.table(),
                key: gear_config.key(),
                min_size: min_size as nat,
                avg_size: avg_size as nat,
                max_size: max_size as nat,
                before_mask: boundary_mask(log2_of(avg_size as nat) + normalization_bits as nat),
                after_mask: boundary_mask(
                    (log2_of(avg_size as nat) - normalization_bits as nat) as nat,
                ),
            }),
    {
        if min_size < 64 || min_size > max_size || avg_size > max_size {
            return None;
        }
        match Self::log2_avg(avg_size, normalization_bits) {
            None => None,
            Some(avg_base) => {
                proof {
                    let chosen = log2_of(avg_size as nat);
                    assert(avg_size as nat == pow2(avg_base as nat));
                    if chosen < avg_base {
                        lemma_pow2_strictly_increases(chosen, avg_base as nat);
                    } else if chosen > avg_base {
                        lemma_pow2_strictly_increases(avg_base as nat, chosen);
                    }
                    assert(chosen == avg_base);
                    gear_config.lemma_table_len();
                }
                let before_avg_size_mask = Self::mask(avg_base + normalization_bits);
                let after_avg_size_mask = Self::mask(avg_base - normalization_bits);
                Some(
                    ChunkerConfig {
                        gear_config,
                        min_size,
                        avg_size,
                        max_size,
                        before_avg_size_mask,
                        after_avg_size_mask,
                    },
                )
            },
        }
    }

    /// A configuration for the given sizes, which must be valid.
    pub fn new(
        gear_config: AesGearConfig<'a>,
        min_size: usize,
        avg_size: usize,
        max_size: usize,
        normalization_bits: u32,
    ) -> (config: Self)
        requires
            valid_sizes(
                min_size as nat,
                avg_size as nat,
                max_size as nat,
                normalization_bits as nat,
            ),
        ensures
            config.params() == (ChunkerParams {
                table: gear_config.table(),
                key: gear_config.key(),
                min_size: min_size as nat,
                avg_size: avg_size as nat,
                max_size: max_size as nat,
                before_mask: boundary_mask(log2_of(avg_size as nat) + normalization_bits as nat),
                after_mask: boundary_mask(
                    (log2_of(avg_size as nat) - normalization_bits as nat) as nat,
                ),
            }),
    {
        match Self::try_new(gear_config, min_size, avg_size, max_size, normalization_bits) {
            Some(config) => config,
            None => {
                proof {
                    assert(false);
                }
                vstd::pervasive::unreached()
            },
        }
    }
}

/// A cut position as a mathematical value.
pub open spec fn as_cut(res: Option<usize>) -> Option<nat> {
    match res {
        Some(n) => Some(n as nat),
        None => None,
    }
}

/// The state of a chunker between two calls of `update`.
pub struct ChunkerState<'a> {
    config: &'a ChunkerConfig<'a>,
    gear: AesGearHash<'a>,
    /// Size of the currently running chunk.
    size: usize,
}

impl<'a> View for ChunkerState<'a> {
    type V = Progress;

    closed spec fn view(&self) -> Progress {
        Progress { size: self.size as nat, register: self.gear.state() }
    }
}

impl<'a> ChunkerState<'a> {
    /// The parameters the chunker runs under.
    pub closed spec fn params(&self) -> ChunkerParams {
        self.config.params()
    }

    #[verifier::type_invariant]
    spec fn inv(&self) -> bool {
        &&& self.config.params().well_formed()
        &&& self.gear.config() == self.config.gear_config
        &&& self.size < self.config.max_size
    }

    /// A chunker at the start of a stream.
    pub fn new(config: &'a ChunkerConfig<'a>) -> (state: Self)
        ensures
            state.params() == config.params(),
            state@ == (Progress { size: 0, register: 0 }),
    {
        let _ = config.max_size();
        ChunkerState { config, gear: AesGearHash::new(&config.gear_config), size: 0 }
    }

    /// The number of bytes in the chunk under construction, which is always
    /// below the maximum chunk size.
    pub fn size(&self) -> (size: usize)
        ensures
            size == self@.size,
            self.params().well_formed(),
            size < self.params().max_size,
    {
        proof {
            use_type_invariant(self);
        }
        self.size
    }

    /// Processes `buf` and returns `Some(consumed)` if a chunk boundary is
    /// found, where `consumed` counts the bytes of `buf` up to and including
    /// the last byte of the chunk. Returns `None` if no boundary is found,
    /// which means that the whole of `buf` was consumed.
    pub fn update(&mut self, buf: &[u8]) -> (res: Option<usize>)
        ensures
            final(self).params() == old(self).params(),
            as_cut(res) == old(self).params().first_cut(old(self)@, buf@),
            final(self)@ == old(self).params().run(old(self)@, buf@),
    {
        proof {
            use_type_invariant(&*self);
        }
        let ghost params = self.params();
        let ghost start = self@;
        let min_size = self.config.min_size;
        let avg_size = self.config.avg_size;
        let max_size = self.config.max_size;
        let before_mask = self.config.before_avg_size_mask;
        let after_mask = self.config.after_avg_size_mask;
        // Offset into `buf` where we're reading now.
        let mut i: usize = 0;
        let mut size = self.size;
        let mut gear = self.gear;

        // The first min_size - 64 bytes are not hashed: they are shifted out
        // of the register before the first boundary test.
        if size < min_size - 64 {
            let to_skip = min_size - 64 - size;
            if to_skip >= buf.len() {
                proof {
                    lemma_skip(params, start, buf@, buf@.len());
                }
                self.size = size + buf.len();
                return None;
            }
            proof {
                lemma_skip(params, start, buf@, to_skip as nat);
            }
            size = size + to_skip;
            i = i + to_skip;
        }
        assert(buf@.skip(0) =~= buf@);

        // Hash the 63 bytes before min_size without testing for a boundary.
        while size < min_size - 1
            invariant
                params == old(self).params(),
                start == old(self)@,
                params == self.config.params(),
                params.well_formed(),
                gear.config() == self.config.gear_config,
                self.size < self.config.max_size,
                min_size == params.min_size,
                max_size == params.max_size,
                i <= buf@.len(),
                size + 64 >= min_size,
                size < max_size,
                params.first_cut(start, buf@) == shifted(
                    params.first_cut(
                        Progress { size: size as nat, register: gear.state() },
                        buf@.skip(i as int),
                    ),
                    i as nat,
                ),
                params.run(start, buf@) == params.run(
                    Progress { size: size as nat, register: gear.state() },
                    buf@.skip(i as int),
                ),
            decreases min_size - size,
        {
            if i >= buf.len() {
                self.gear = gear;
                self.size = size;
                return None;
            }
            proof {
                assert(buf@.skip(i as int)[0] == buf@[i as int]);
                assert(buf@.skip(i as int).drop_first() =~= buf@.skip(i + 1));
            }
            gear.update(buf[i]);
            size = size + 1;
            i = i + 1;
        }

        // From min_size up to avg_size, test against the stricter mask, so
        // that small chunks are less likely.
        while size < avg_size
            invariant
                params == old(self).params(),
                start == old(self)@,
                params == self.config.params(),
                params.well_formed(),
                gear.config() == self.config.gear_config,
                self.size < self.config.max_size,
                min_size == params.min_size,
                avg_size == params.avg_size,
                max_size == params.max_size,
                before_mask == params.before_mask,
                i <= buf@.len(),
                size + 1 >= min_size,
                size <= max_size,
                size < max_size ==> params.first_cut(start, buf@) == shifted(
                    params.first_cut(
                        Progress { size: size as nat, register: gear.state() },
                        buf@.skip(i as int),
                    ),
                    i as nat,
                ) && params.run(start, buf@) == params.run(
                    Progress { size: size as nat, register: gear.state() },
                    buf@.skip(i as int),
                ),
                size == max_size ==> params.first_cut(start, buf@) == Some(i as nat)
                    && params.run(start, buf@) == (Progress {
                    size: 0,
                    register: gear.state(),
                }),
            decreases avg_size - size,
        {
            if i >= buf.len() {
                self.gear = gear;
                self.size = size;
                return None;
            }
            proof {
                assert(buf@.skip(i as int)[0] == buf@[i as int]);
                assert(buf@.skip(i as int).drop_first() =~= buf@.skip(i + 1));
            }
            gear.update(buf[i]);
            size = size + 1;
            i = i + 1;
            if gear.hash() & before_mask == 0 {
                self.gear = gear;
                self.size = 0;
                return Some(i);
            }
        }

        // Past avg_size, test against the looser mask, so that a boundary
        // becomes more likely.
        while size < max_size
            invariant
                params == old(self).params(),
                start == old(self)@,
                params == self.config.params(),
                params.well_formed(),
                gear.config() == self.config.gear_config,
                self.size < self.config.max_size,
                min_size == params.min_size,
                avg_size == params.avg_size,
                max_size == params.max_size,
                after_mask == params.after_mask,
                i <= buf@.len(),
                size + 1 >= min_size,
                size >= avg_size,
                size <= max_size,
                size < max_size ==> params.first_cut(start, buf@) == shifted(
                    params.first_cut(
                        Progress { size: size as nat, register: gear.state() },
                        buf@.skip(i as int),
                    ),
                    i as nat,
                ) && params.run(start, buf@) == params.run(
                    Progress { size: size as nat, register: gear.state() },
                    buf@.skip(i as int),
                ),
                size == max_size ==> params.first_cut(start, buf@) == Some(i as nat)
                    && params.run(start, buf@) == (Progress {
                    size: 0,
                    register: gear.state(),
                }),
            decreases max_size - size,
        {
            if i >= buf.len() {
                self.gear = gear;
                self.size = size;
                return None;
            }
            proof {
                assert(buf@.skip(i as int)[0] == buf@[i as int]);
                assert(buf@.skip(i as int).drop_first() =~= buf@.skip(i + 1));
            }
            gear.update(buf[i]);
            size = size + 1;
            i = i + 1;
            if gear.hash() & after_mask == 0 {
                self.gear = gear;
                self.size = 0;
                return Some(i);
            }
        }

        // Reached the maximum size.
        self.gear = gear;
        self.size = 0;
        Some(i)
    }
}

} // verus!
