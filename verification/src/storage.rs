//! Persistent storage for neural network weights.
//!
//! The durable copy is a `PersistBlob` that the platform keeps in a section
//! that is not zeroed on boot (on hardware it can be backed by flash). A magic
//! word, a version and a checksum decide whether a previous run left valid
//! weights. Weights travel as the bit patterns of their `f32` values.
use vstd::prelude::*;

verus! {

/// "NOS1"
pub const MAGIC: u32 = 0x4E4F_5331;

pub const VERSION: u32 = 1;

/// 8*7 hidden + 8 output + 8 spare words.
pub const SLOTS: usize = 72;

/// Index of the first output weight in the word buffer.
pub const OUTPUT_BASE: usize = 56;

/// One checksum step: add the word, multiply by the FNV prime.
pub open spec fn mix(c: u32, w: u32) -> u32 {
    vstd::wrapping::u32_specs::wrapping_mul(vstd::wrapping::u32_specs::wrapping_add(c, w), 0x0100_0193)
}

/// The checksum of `words` started from `c`, word by word from the front.
pub open spec fn fold_checksum(c: u32, words: Seq<u32>) -> u32
    decreases words.len(),
{
    if words.len() == 0 {
        c
    } else {
        mix(fold_checksum(c, words.drop_last()), words.last())
    }
}

/// The durable image: header and weight words.
#[derive(Clone, Copy)]
pub struct PersistBlob {
    pub magic: u32,
    pub version: u32,
    pub count: u32,
    pub checksum: u32,
    pub words: [u32; SLOTS],
}

impl PersistBlob {
    pub open spec fn checksum_spec(&self) -> u32 {
        fold_checksum(self.version ^ self.count, self.words@)
    }

    pub open spec fn is_valid_spec(&self) -> bool {
        self.magic == MAGIC && self.version == VERSION && self.checksum == self.checksum_spec()
    }

    /// An all-zero image (never valid: its magic is 0).
    pub fn empty() -> (b: PersistBlob)
        ensures
            b.magic == 0,
            b.version == 0,
            b.count == 0,
            b.checksum == 0,
            forall|i: int| 0 <= i < SLOTS ==> b.words[i] == 0,
    {
        PersistBlob { magic: 0, version: 0, count: 0, checksum: 0, words: [0u32; SLOTS] }
    }

    pub fn checksum_words(&self) -> (c: u32)
        ensures
            c == self.checksum_spec(),
    {
        let mut c = self.version ^ self.count;
        let mut i: usize = 0;
        while i < SLOTS
            invariant
                0 <= i <= SLOTS,
                c == fold_checksum(self.version ^ self.count, self.words@.take(i as int)),
            decreases SLOTS - i,
        {
            assert(self.words@.take(i + 1).drop_last() =~= self.words@.take(i as int));
            c = c.wrapping_add(self.words[i]).wrapping_mul(0x0100_0193);
            i = i + 1;
        }
        assert(self.words@.take(SLOTS as int) =~= self.words@);
        c
    }

    pub fn is_valid(&self) -> (b: bool)
        ensures
            b == self.is_valid_spec(),
    {
        self.magic == MAGIC && self.version == VERSION && self.checksum == self.checksum_words()
    }
}

/// The buffer layout of the weights: hidden row by row, then the output weights.
pub open spec fn holds_weights(buffer: Seq<u32>, hidden: [[u32; 7]; 8], output: [u32; 8]) -> bool {
    &&& forall|i: int, j: int| 0 <= i < 8 && 0 <= j < 7 ==> buffer[i * 7 + j] == #[trigger] hidden[i][j]
    &&& forall|i: int| 0 <= i < 8 ==> buffer[OUTPUT_BASE + i] == #[trigger] output[i]
}

/// `p1` is `p0` with `buffer` committed: sealed, count bumped, checksummed.
pub open spec fn committed(p0: PersistBlob, p1: PersistBlob, buffer: [u32; SLOTS]) -> bool {
    &&& p1.magic == MAGIC
    &&& p1.version == VERSION
    &&& p1.count == vstd::wrapping::u32_specs::wrapping_add(p0.count, 1)
    &&& p1.words == buffer
    &&& p1.checksum == p1.checksum_spec()
}

/// `s` is the storage a boot starts from image `persist`.
pub open spec fn restarted(persist: PersistBlob, s: PersistentStorage) -> bool {
    &&& s.valid == persist.is_valid_spec()
    &&& s.valid ==> s.buffer == persist.words
    &&& !s.valid ==> forall|i: int| 0 <= i < SLOTS ==> s.buffer[i] == 0
}

pub struct PersistentStorage {
    /// Working copy mirrored from / into the durable image.
    pub buffer: [u32; SLOTS],
    pub valid: bool,
}

impl PersistentStorage {
    /// Starts from the durable image: its words when it is valid, else zeros.
    pub fn new(persist: &PersistBlob) -> (s: PersistentStorage)
        ensures
            restarted(*persist, s),
    {
        if persist.is_valid() {
            PersistentStorage { buffer: persist.words, valid: true }
        } else {
            PersistentStorage { buffer: [0u32; SLOTS], valid: false }
        }
    }

    /// Writes the weights (as `f32` bit patterns) into the buffer, marks it
    /// valid and commits it to `persist`.
    pub fn save_weights(&mut self, persist: &mut PersistBlob, weights: &[[u32; 7]; 8], output_weights: &[u32; 8])
        ensures
            final(self).valid,
            holds_weights(final(self).buffer@, *weights, *output_weights),
            forall|k: int| 64 <= k < SLOTS ==> final(self).buffer[k] == old(self).buffer[k],
            committed(*old(persist), *final(persist), final(self).buffer),
    {
        let mut i: usize = 0;
        while i < 8
            invariant
                0 <= i <= 8,
                forall|a: int, b: int|
                    0 <= a < i && 0 <= b < 7 ==> self.buffer[a * 7 + b] == #[trigger] weights[a][b],
                forall|k: int| i * 7 <= k < SLOTS ==> self.buffer[k] == old(self).buffer[k],
            decreases 8 - i,
        {
            let mut j: usize = 0;
            while j < 7
                invariant
                    0 <= i < 8,
                    0 <= j <= 7,
                    forall|a: int, b: int|
                        0 <= a < i && 0 <= b < 7 ==> self.buffer[a * 7 + b] == #[trigger] weights[a][b],
                    forall|b: int| 0 <= b < j ==> self.buffer[i * 7 + b] == #[trigger] weights[i as int][b],
                    forall|k: int| i * 7 + j <= k < SLOTS ==> self.buffer[k] == old(self).buffer[k],
                decreases 7 - j,
            {
                self.buffer[i * 7 + j] = weights[i][j];
                j = j + 1;
            }
            i = i + 1;
        }
        let mut i: usize = 0;
        while i < 8
            invariant
                0 <= i <= 8,
                forall|a: int, b: int|
                    0 <= a < 8 && 0 <= b < 7 ==> self.buffer[a * 7 + b] == #[trigger] weights[a][b],
                forall|a: int| 0 <= a < i ==> self.buffer[OUTPUT_BASE + a] == #[trigger] output_weights[a],
                forall|k: int| OUTPUT_BASE + i <= k < SLOTS ==> self.buffer[k] == old(self).buffer[k],
            decreases 8 - i,
        {
            self.buffer[OUTPUT_BASE + i] = output_weights[i];
            i = i + 1;
        }
        self.valid = true;
        self.commit(persist);
    }

    /// Copies the buffer into the durable image, bumps its write count and
    /// seals it with the magic word, version and checksum.
    pub fn commit(&self, persist: &mut PersistBlob)
        ensures
            committed(*old(persist), *final(persist), self.buffer),
    {
        persist.magic = MAGIC;
        persist.version = VERSION;
        persist.count = persist.count.wrapping_add(1);
        persist.words = self.buffer;
        persist.checksum = persist.checksum_words();
    }

    /// The weights last saved, when the buffer is valid.
    pub fn load_weights(&self) -> (r: Option<([[u32; 7]; 8], [u32; 8])>)
        ensures
            !self.valid ==> r is None,
            self.valid ==> r is Some && holds_weights(self.buffer@, r->Some_0.0, r->Some_0.1),
    {
        if !self.valid {
            return None;
        }
        let mut hidden = [[0u32; 7]; 8];
        let mut output = [0u32; 8];
        let mut i: usize = 0;
        while i < 8
            invariant
                0 <= i <= 8,
                forall|a: int, b: int|
                    0 <= a < i && 0 <= b < 7 ==> self.buffer[a * 7 + b] == #[trigger] hidden[a][b],
            decreases 8 - i,
        {
            let mut row = [0u32; 7];
            let mut j: usize = 0;
            while j < 7
                invariant
                    0 <= i < 8,
                    0 <= j <= 7,
                    forall|b: int| 0 <= b < j ==> self.buffer[i * 7 + b] == #[trigger] row[b],
                decreases 7 - j,
            {
                row[j] = self.buffer[i * 7 + j];
                j = j + 1;
            }
            hidden[i] = row;
            i = i + 1;
        }
        let mut i: usize = 0;
        while i < 8
            invariant
                0 <= i <= 8,
                forall|a: int| 0 <= a < i ==> self.buffer[OUTPUT_BASE + a] == #[trigger] output[a],
            decreases 8 - i,
        {
            output[i] = self.buffer[OUTPUT_BASE + i];
            i = i + 1;
        }
        Some((hidden, output))
    }

    /// Forgets the weights, here and in the durable image.
    pub fn clear(&mut self, persist: &mut PersistBlob)
        ensures
            !final(self).valid,
            forall|i: int| 0 <= i < SLOTS ==> final(self).buffer[i] == 0,
            final(persist).magic == 0,
            final(persist).version == 0,
            final(persist).count == 0,
            final(persist).checksum == 0,
            forall|i: int| 0 <= i < SLOTS ==> final(persist).words[i] == 0,
    {
        self.buffer = [0u32; SLOTS];
        self.valid = false;
        *persist = PersistBlob::empty();
    }
}

/// What `load_weights` gives back is what `save_weights` put in.
pub proof fn law_save_load_roundtrip(
    buffer: Seq<u32>,
    hidden: [[u32; 7]; 8],
    output: [u32; 8],
    h2: [[u32; 7]; 8],
    o2: [u32; 8],
)
    requires
        holds_weights(buffer, hidden, output),
        holds_weights(buffer, h2, o2),
    ensures
        h2 == hidden,
        o2 == output,
{
    assert forall|i: int| 0 <= i < 8 implies h2[i] == hidden[i] by {
        assert forall|j: int| 0 <= j < 7 implies h2[i][j] == hidden[i][j] by {
            assert(buffer[i * 7 + j] == hidden[i][j]);
            assert(buffer[i * 7 + j] == h2[i][j]);
        }
        assert(h2[i] =~= hidden[i]);
    }
    assert(h2 =~= hidden);
    assert forall|i: int| 0 <= i < 8 implies o2[i] == output[i] by {
        assert(buffer[OUTPUT_BASE + i] == output[i]);
    }
    assert(o2 =~= output);
}

/// A committed buffer survives a restart: storage started from the image is
/// valid and holds exactly the committed words.
pub proof fn law_commit_survives_restart(
    p0: PersistBlob,
    p1: PersistBlob,
    buffer: [u32; SLOTS],
    s: PersistentStorage,
)
    requires
        committed(p0, p1, buffer),
        restarted(p1, s),
    ensures
        s.valid,
        s.buffer == buffer,
{
}

/// A cleared image is never taken for valid weights after a restart.
pub proof fn law_clear_survives_restart(p: PersistBlob, s: PersistentStorage)
    requires
        p.magic == 0,
        restarted(p, s),
    ensures
        !s.valid,
{
}

/// One checksum step is one-to-one in each argument: adding is undone by
/// subtracting, and the odd multiplier has an inverse modulo 2^32.
proof fn lemma_mix_injective(c1: u32, c2: u32, w1: u32, w2: u32)
    ensures
        mix(c1, w1) == mix(c2, w2) ==> vstd::wrapping::u32_specs::wrapping_add(c1, w1)
            == vstd::wrapping::u32_specs::wrapping_add(c2, w2),
        (c1 == c2 && w1 != w2) ==> mix(c1, w1) != mix(c2, w2),
        (c1 != c2 && w1 == w2) ==> mix(c1, w1) != mix(c2, w2),
{
    let a1 = vstd::wrapping::u32_specs::wrapping_add(c1, w1);
    let a2 = vstd::wrapping::u32_specs::wrapping_add(c2, w2);
    assert(a1 == ((c1 + w1) % 0x1_0000_0000) as u32);
    assert(a2 == ((c2 + w2) % 0x1_0000_0000) as u32);
    assert(mix(c1, w1) == ((a1 * 0x0100_0193u32) % 0x1_0000_0000) as u32);
    assert(mix(c2, w2) == ((a2 * 0x0100_0193u32) % 0x1_0000_0000) as u32);
    assert((((a1 * 0x0100_0193u32) % 0x1_0000_0000) as u32 == ((a2 * 0x0100_0193u32) % 0x1_0000_0000) as u32)
        ==> a1 == a2) by (bit_vector);
    assert((c1 == c2 && w1 != w2) ==> ((c1 + w1) % 0x1_0000_0000) as u32 != ((c2 + w2) % 0x1_0000_0000) as u32)
        by (bit_vector);
    assert((c1 != c2 && w1 == w2) ==> ((c1 + w1) % 0x1_0000_0000) as u32 != ((c2 + w2) % 0x1_0000_0000) as u32)
        by (bit_vector);
}

/// Two word sequences that differ in exactly one position have different
/// checksums from the same start.
proof fn lemma_fold_detects_one_change(c: u32, a: Seq<u32>, b: Seq<u32>, j: int)
    requires
        a.len() == b.len(),
        0 <= j < a.len(),
        a[j] != b[j],
        forall|i: int| 0 <= i < a.len() && i != j ==> a[i] == b[i],
    ensures
        fold_checksum(c, a) != fold_checksum(c, b),
    decreases a.len(),
{
    let n = a.len() - 1;
    if j == n {
        assert(a.drop_last() =~= b.drop_last());
        lemma_mix_injective(fold_checksum(c, a.drop_last()), fold_checksum(c, b.drop_last()), a.last(), b.last());
    } else {
        lemma_fold_detects_one_change(c, a.drop_last(), b.drop_last(), j);
        lemma_mix_injective(fold_checksum(c, a.drop_last()), fold_checksum(c, b.drop_last()), a.last(), b.last());
    }
}

/// Corrupting any single weight word of a valid image, header untouched,
/// makes it invalid: the checksum catches every one-word change.
pub proof fn law_checksum_catches_one_word(p: PersistBlob, q: PersistBlob, j: int)
    requires
        p.is_valid_spec(),
        q.magic == p.magic,
        q.version == p.version,
        q.count == p.count,
        q.checksum == p.checksum,
        0 <= j < SLOTS,
        q.words[j] != p.words[j],
        forall|i: int| 0 <= i < SLOTS && i != j ==> q.words[i] == p.words[i],
    ensures
        !q.is_valid_spec(),
{
    lemma_fold_detects_one_change(p.version ^ p.count, p.words@, q.words@, j);
}

} // verus!
