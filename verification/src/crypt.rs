//! The digest engine: padding and block splitting, the 80-round compression
//! function, and the 20-byte output, together with the mathematical model
//! that the executable code is proved against.
use vstd::prelude::*;
use vstd::slice::slice_to_vec;
use vstd::string::StringSliceAdditionalSpecFns;

verus! {

// ----------------------------------------------------------------------
// Mathematical model
// ----------------------------------------------------------------------

/// An integer reduced modulo 2^32: the wraparound arithmetic of the engine.
pub open spec fn w32(x: int) -> u32 {
    (x % 0x1_0000_0000) as u32
}

/// A 32-bit word rotated left by `n` bits.
pub open spec fn rotl(w: u32, n: u32) -> u32
    recommends
        1 <= n < 32,
{
    (w << n) | (w >> ((32 - n) as u32))
}

/// The big-endian 32-bit word formed from four bytes.
pub open spec fn be32(b0: u8, b1: u8, b2: u8, b3: u8) -> u32 {
    (b0 * 0x100_0000 + b1 * 0x1_0000 + b2 * 0x100 + b3) as u32
}

/// Word `i` of one 64-byte chunk.
pub open spec fn word_at(chunk: Seq<u8>, i: int) -> u32
    recommends
        chunk.len() == 64,
        0 <= i < 16,
{
    be32(chunk[4 * i], chunk[4 * i + 1], chunk[4 * i + 2], chunk[4 * i + 3])
}

/// How many zero bytes stand between the 0x80 marker and the length field.
pub open spec fn pad_zeros(len: nat) -> nat {
    if len % 64 <= 55 {
        (55 - len % 64) as nat
    } else {
        (119 - len % 64) as nat
    }
}

/// The eight big-endian bytes of a 64-bit value.
pub open spec fn be64_bytes(n: u64) -> Seq<u8> {
    seq![
        (n / 0x100_0000_0000_0000) as u8,
        ((n / 0x1_0000_0000_0000) % 0x100) as u8,
        ((n / 0x100_0000_0000) % 0x100) as u8,
        ((n / 0x1_0000_0000) % 0x100) as u8,
        ((n / 0x100_0000) % 0x100) as u8,
        ((n / 0x1_0000) % 0x100) as u8,
        ((n / 0x100) % 0x100) as u8,
        (n % 0x100) as u8,
    ]
}

/// A message followed by the 0x80 marker, the zero padding, and its length in
/// bits; the result's length is always a multiple of 64.
pub open spec fn padded(msg: Seq<u8>) -> Seq<u8>
    recommends
        8 * msg.len() <= u64::MAX,
{
    msg + seq![0x80u8] + Seq::new(pad_zeros(msg.len()), |i: int| 0u8) + be64_bytes(
        (8 * msg.len()) as u64,
    )
}

/// How many blocks a message of `len` bytes yields after padding.
pub open spec fn num_blocks(len: nat) -> nat {
    ((len + 8) / 64 + 1) as nat
}

/// The padded byte sequence split into blocks of sixteen 32-bit words.
pub open spec fn blocks_of(p: Seq<u8>) -> Seq<Seq<u32>> {
    Seq::new(
        p.len() / 64,
        |b: int| Seq::new(16, |i: int| word_at(p.subrange(64 * b, 64 * b + 64), i)),
    )
}

/// Word `i` of the 80-word message schedule expanded from one block.
pub open spec fn sched(w: Seq<u32>, i: int) -> u32
    recommends
        w.len() == 16,
        0 <= i < 80,
    decreases i,
{
    if i < 16 {
        if 0 <= i < w.len() {
            w[i]
        } else {
            0
        }
    } else {
        rotl(sched(w, i - 3) ^ sched(w, i - 8) ^ sched(w, i - 14) ^ sched(w, i - 16), 1)
    }
}

/// The nonlinear function of round `t`: choice, parity, majority, parity.
pub open spec fn f_stage(b: u32, c: u32, d: u32, t: int) -> u32
    recommends
        0 <= t < 80,
{
    if t < 20 {
        (b & c) | (!b & d)
    } else if t < 40 {
        b ^ c ^ d
    } else if t < 60 {
        (b & c) | (b & d) | (c & d)
    } else {
        b ^ c ^ d
    }
}

/// The round constant of round `t`.
pub open spec fn k_stage(t: int) -> u32
    recommends
        0 <= t < 80,
{
    if t < 20 {
        0x5A827999
    } else if t < 40 {
        0x6ED9EBA1
    } else if t < 60 {
        0x8F1BBCDC
    } else {
        0xCA62C1D6
    }
}

/// The five working registers after the first `t` rounds on one block,
/// starting from digest state `h`.
pub open spec fn rounds(h: Seq<u32>, w: Seq<u32>, t: int) -> (u32, u32, u32, u32, u32)
    recommends
        h.len() == 5,
        w.len() == 16,
        0 <= t <= 80,
    decreases t,
{
    if t <= 0 {
        (h[0], h[1], h[2], h[3], h[4])
    } else {
        let (a, b, c, d, e) = rounds(h, w, t - 1);
        let temp = w32(rotl(a, 5) + f_stage(b, c, d, t - 1) + e + sched(w, t - 1) + k_stage(t - 1));
        (temp, a, rotl(b, 30), c, d)
    }
}

/// The initial digest state.
pub open spec fn init_h() -> Seq<u32> {
    seq![0x67452301u32, 0xEFCDAB89u32, 0x98BADCFEu32, 0x10325476u32, 0xC3D2E1F0u32]
}

/// One block folded into the digest state: 80 rounds, then wraparound
/// addition of the registers back into the state.
pub open spec fn compress(h: Seq<u32>, w: Seq<u32>) -> Seq<u32>
    recommends
        h.len() == 5,
        w.len() == 16,
{
    let (a, b, c, d, e) = rounds(h, w, 80);
    seq![w32(h[0] + a), w32(h[1] + b), w32(h[2] + c), w32(h[3] + d), w32(h[4] + e)]
}

/// The digest state threaded sequentially through a sequence of blocks.
pub open spec fn fold_blocks(h: Seq<u32>, blocks: Seq<Seq<u32>>) -> Seq<u32>
    decreases blocks.len(),
{
    if blocks.len() == 0 {
        h
    } else {
        fold_blocks(compress(h, blocks[0]), blocks.drop_first())
    }
}

/// The four big-endian bytes of a 32-bit word.
pub open spec fn u32_be_bytes(x: u32) -> Seq<u8> {
    seq![
        (x / 0x100_0000) as u8,
        ((x / 0x1_0000) % 0x100) as u8,
        ((x / 0x100) % 0x100) as u8,
        (x % 0x100) as u8,
    ]
}

/// The five digest state words laid out as 20 big-endian bytes.
pub open spec fn digest_bytes(h: Seq<u32>) -> Seq<u8>
    recommends
        h.len() == 5,
{
    u32_be_bytes(h[0]) + u32_be_bytes(h[1]) + u32_be_bytes(h[2]) + u32_be_bytes(h[3])
        + u32_be_bytes(h[4])
}

/// The 20-byte digest of a message.
pub open spec fn sha1(msg: Seq<u8>) -> Seq<u8>
    recommends
        8 * msg.len() <= u64::MAX,
{
    digest_bytes(fold_blocks(init_h(), blocks_of(padded(msg))))
}

/// The word sequences of a sequence of blocks.
pub open spec fn views_of(blocks: Seq<Block>) -> Seq<Seq<u32>> {
    blocks.map_values(|b: Block| b@)
}

// ----------------------------------------------------------------------
// Executable code
// ----------------------------------------------------------------------

/// One 64-byte unit of input, held as sixteen 32-bit big-endian words.
pub struct Block {
    words: Vec<u32>,
}

impl View for Block {
    type V = Seq<u32>;

    closed spec fn view(&self) -> Seq<u32> {
        self.words@
    }
}

impl Block {
    #[verifier::type_invariant]
    spec fn wf(self) -> bool {
        self.words@.len() == 16
    }

    /// Word `i` of this block.
    pub fn word(&self, i: usize) -> (w: u32)
        requires
            i < 16,
        ensures
            w == self@[i as int],
    {
        proof {
            use_type_invariant(self);
        }
        self.words[i]
    }

    /// The blocks of a string's bytes, padded and split.
    pub fn new(message: &str) -> (blocks: Vec<Block>)
        requires
            8 * message.spec_bytes().len() <= u64::MAX,
            message.spec_bytes().len() + 72 <= usize::MAX,
        ensures
            views_of(blocks@) == blocks_of(padded(message.spec_bytes())),
            blocks@.len() == num_blocks(message.spec_bytes().len()),
    {
        Block::from_bytes(slice_to_vec(message.as_bytes()))
    }

    /// Pads a byte sequence and splits it into blocks: always at least one
    /// block, and padding is applied to every message, a multiple of 64
    /// bytes long included.
    pub fn from_bytes(message: Vec<u8>) -> (blocks: Vec<Block>)
        requires
            8 * message@.len() <= u64::MAX,
            message@.len() + 72 <= usize::MAX,
        ensures
            views_of(blocks@) == blocks_of(padded(message@)),
            blocks@.len() == num_blocks(message@.len()),
    {
        let ghost orig: Seq<u8> = message@;
        let len: usize = message.len();
        let mut m: Vec<u8> = message;
        m.push(0x80);
        let r: usize = len % 64;
        let z: usize = if r <= 55 {
            55 - r
        } else {
            119 - r
        };
        let mut i: usize = 0;
        while i < z
            invariant
                i <= z,
                z == pad_zeros(orig.len()),
                m@ == orig + seq![0x80u8] + Seq::new(i as nat, |j: int| 0u8),
            decreases z - i,
        {
            m.push(0x00);
            proof {
                assert(m@ =~= orig + seq![0x80u8] + Seq::new((i + 1) as nat, |j: int| 0u8));
            }
            i = i + 1;
        }
        let bits: u64 = (len as u64) * 8;
        m.push((bits / 0x100_0000_0000_0000) as u8);
        m.push(((bits / 0x1_0000_0000_0000) % 0x100) as u8);
        m.push(((bits / 0x100_0000_0000) % 0x100) as u8);
        m.push(((bits / 0x1_0000_0000) % 0x100) as u8);
        m.push(((bits / 0x100_0000) % 0x100) as u8);
        m.push(((bits / 0x1_0000) % 0x100) as u8);
        m.push(((bits / 0x100) % 0x100) as u8);
        m.push((bits % 0x100) as u8);
        proof {
            assert(m@ =~= padded(orig));
            lemma_padded_len(orig);
        }
        let nb: usize = m.len() / 64;
        proof {
            assert(64 * nb <= usize::MAX);
        }
        let mut blocks: Vec<Block> = Vec::new();
        let mut b: usize = 0;
        while b < nb
            invariant
                b <= nb,
                m@ == padded(orig),
                m@.len() == 64 * nb,
                64 * nb <= usize::MAX,
                blocks@.len() == b,
                forall|x: int| 0 <= x < b ==> blocks@[x]@ == blocks_of(m@)[x],
            decreases nb - b,
        {
            let mut words: Vec<u32> = Vec::new();
            let mut j: usize = 0;
            while j < 16
                invariant
                    j <= 16,
                    b < nb,
                    m@.len() == 64 * nb,
                    64 * nb <= usize::MAX,
                    words@.len() == j,
                    forall|y: int|
                        0 <= y < j ==> words@[y] == word_at(
                            m@.subrange(64 * b, 64 * b + 64),
                            y,
                        ),
                decreases 16 - j,
            {
                let idx: usize = 64 * b + 4 * j;
                let w: u32 = (m[idx] as u32) * 0x100_0000 + (m[idx + 1] as u32) * 0x1_0000 + (m[idx
                    + 2] as u32) * 0x100 + (m[idx + 3] as u32);
                words.push(w);
                j = j + 1;
            }
            proof {
                assert(words@ =~= blocks_of(m@)[b as int]);
            }
            blocks.push(Block { words });
            b = b + 1;
        }
        proof {
            assert(views_of(blocks@) =~= blocks_of(padded(orig)));
        }
        blocks
    }
}

/// The length of the padded message, a whole number of blocks.
pub proof fn lemma_padded_len(msg: Seq<u8>)
    requires
        8 * msg.len() <= u64::MAX,
    ensures
        padded(msg).len() == 64 * num_blocks(msg.len()),
        padded(msg).len() % 64 == 0,
{
    let len = msg.len() as int;
    let q = len / 64;
    let r = len % 64;
    assert(len == 64 * q + r);
    assert(padded(msg).len() == len + 9 + pad_zeros(msg.len()));
    if r <= 55 {
        assert((len + 8) / 64 == q) by {
            assert(len + 8 == 64 * q + (r + 8));
        };
        assert(padded(msg).len() == 64 * (q + 1));
    } else {
        assert((len + 8) / 64 == q + 1) by {
            assert(len + 8 == 64 * (q + 1) + (r - 56));
        };
        assert(padded(msg).len() == 64 * (q + 2));
    }
}

/// `word` rotated left by `n` bits.
fn shift_n(word: u32, n: u32) -> (r: u32)
    requires
        1 <= n < 32,
    ensures
        r == rotl(word, n),
{
    (word << n) | (word >> (32 - n))
}

/// The nonlinear round function, selected by the round's stage.
fn logical(b: u32, c: u32, d: u32, t: usize) -> (r: u32)
    requires
        t < 80,
    ensures
        r == f_stage(b, c, d, t as int),
{
    match t / 20 {
        0 => (b & c) | (!b & d),
        2 => (b & c) | (b & d) | (c & d),
        _ => b ^ c ^ d,
    }
}

/// The round constant, selected by the round's stage.
fn round_constant(t: usize) -> (k: u32)
    requires
        t < 80,
    ensures
        k == k_stage(t as int),
{
    if t < 20 {
        0x5A827999
    } else if t < 40 {
        0x6ED9EBA1
    } else if t < 60 {
        0x8F1BBCDC
    } else {
        0xCA62C1D6
    }
}

/// The 80-word message schedule of one block.
fn append(words: &Vec<u32>) -> (r: Vec<u32>)
    requires
        words@.len() == 16,
    ensures
        r@.len() == 80,
        forall|i: int| 0 <= i < 80 ==> r@[i] == sched(words@, i),
{
    let mut appends: Vec<u32> = Vec::new();
    let mut i: usize = 0;
    while i < 16
        invariant
            i <= 16,
            words@.len() == 16,
            appends@.len() == i,
            forall|j: int| 0 <= j < i ==> appends@[j] == sched(words@, j),
        decreases 16 - i,
    {
        appends.push(words[i]);
        i = i + 1;
    }
    while i < 80
        invariant
            16 <= i <= 80,
            words@.len() == 16,
            appends@.len() == i,
            forall|j: int| 0 <= j < i ==> appends@[j] == sched(words@, j),
        decreases 80 - i,
    {
        let x: u32 = appends[i - 3] ^ appends[i - 8] ^ appends[i - 14] ^ appends[i - 16];
        appends.push(shift_n(x, 1));
        i = i + 1;
    }
    appends
}

/// Appends the four big-endian bytes of `x`.
fn push_be32(out: &mut Vec<u8>, x: u32)
    ensures
        final(out)@ == old(out)@ + u32_be_bytes(x),
{
    out.push((x / 0x100_0000) as u8);
    out.push(((x / 0x1_0000) % 0x100) as u8);
    out.push(((x / 0x100) % 0x100) as u8);
    out.push((x % 0x100) as u8);
    proof {
        assert(out@ =~= old(out)@ + u32_be_bytes(x));
    }
}

/// Adds two digest state words with wraparound.
fn add32(x: u32, y: u32) -> (r: u32)
    ensures
        r == w32(x + y),
{
    let s: u64 = (x as u64) + (y as u64);
    (s % 0x1_0000_0000) as u32
}

/// Folds a sequence of blocks into the 20-byte digest.
pub fn digest(blocks: Vec<Block>) -> (r: Vec<u8>)
    ensures
        r@ == digest_bytes(fold_blocks(init_h(), views_of(blocks@))),
        r@.len() == 20,
{
    let ghost all: Seq<Seq<u32>> = views_of(blocks@);
    let mut h0: u32 = 0x67452301;
    let mut h1: u32 = 0xEFCDAB89;
    let mut h2: u32 = 0x98BADCFE;
    let mut h3: u32 = 0x10325476;
    let mut h4: u32 = 0xC3D2E1F0;
    proof {
        assert(all.skip(0) =~= all);
    }
    let mut bi: usize = 0;
    while bi < blocks.len()
        invariant
            bi <= blocks@.len(),
            all == views_of(blocks@),
            fold_blocks(seq![h0, h1, h2, h3, h4], all.skip(bi as int)) == fold_blocks(
                init_h(),
                all,
            ),
        decreases blocks@.len() - bi,
    {
        let block = &blocks[bi];
        proof {
            use_type_invariant(block);
        }
        let ghost w: Seq<u32> = block.words@;
        let ghost hs: Seq<u32> = seq![h0, h1, h2, h3, h4];
        let words: Vec<u32> = append(&block.words);
        let mut a: u32 = h0;
        let mut b: u32 = h1;
        let mut c: u32 = h2;
        let mut d: u32 = h3;
        let mut e: u32 = h4;
        let mut t: usize = 0;
        while t < 80
            invariant
                t <= 80,
                w.len() == 16,
                words@.len() == 80,
                forall|i: int| 0 <= i < 80 ==> words@[i] == sched(w, i),
                (a, b, c, d, e) == rounds(hs, w, t as int),
            decreases 80 - t,
        {
            let f: u32 = logical(b, c, d, t);
            let k: u32 = round_constant(t);
            let rot: u32 = shift_n(a, 5);
            let sum: u64 = (rot as u64) + (f as u64) + (e as u64) + (words[t] as u64) + (k as u64);
            let temp: u32 = (sum % 0x1_0000_0000) as u32;
            e = d;
            d = c;
            c = shift_n(b, 30);
            b = a;
            a = temp;
            t = t + 1;
        }
        h0 = add32(h0, a);
        h1 = add32(h1, b);
        h2 = add32(h2, c);
        h3 = add32(h3, d);
        h4 = add32(h4, e);
        proof {
            assert(seq![h0, h1, h2, h3, h4] =~= compress(hs, w));
            assert(all.skip(bi as int)[0] == w);
            assert(all.skip(bi as int).drop_first() =~= all.skip(bi as int + 1));
        }
        bi = bi + 1;
    }
    proof {
        assert(all.skip(blocks@.len() as int) =~= Seq::<Seq<u32>>::empty());
    }
    let mut out: Vec<u8> = Vec::new();
    push_be32(&mut out, h0);
    push_be32(&mut out, h1);
    push_be32(&mut out, h2);
    push_be32(&mut out, h3);
    push_be32(&mut out, h4);
    proof {
        assert(out@ =~= digest_bytes(seq![h0, h1, h2, h3, h4]));
    }
    out
}

/// Law: every message's digest is exactly 20 bytes long.
pub proof fn lemma_sha1_len(msg: Seq<u8>)
    ensures
        sha1(msg).len() == 20,
{
}

/// Law: the digest is a function of the message alone, so two calls on
/// equal messages agree.
pub proof fn lemma_sha1_deterministic(m1: Seq<u8>, m2: Seq<u8>)
    requires
        m1 == m2,
    ensures
        sha1(m1) == sha1(m2),
{
}

} // verus!
