use vstd::prelude::*;

verus! {

/// Obfuscation parameters: a repeating XOR key and an optional limit on how
/// many leading bytes of each datagram are transformed.
pub struct ObfsConfig {
    /// The key bytes, applied cyclically. Must be non-empty.
    pub key: Vec<u8>,
    /// When present, only the first `first` bytes of a datagram are
    /// transformed; the rest pass through untouched. Absent means all bytes.
    pub first: Option<usize>,
}

impl ObfsConfig {
    /// A usable configuration has a non-empty key. An empty key is a
    /// configuration error rejected before the relay core starts.
    pub open spec fn wf(&self) -> bool {
        self.key.len() > 0
    }
}

/// How many leading bytes of a datagram of length `len` the transform
/// touches: `len` itself, or `first` when that is smaller.
pub open spec fn obfs_limit(len: nat, first: Option<usize>) -> nat {
    match first {
        Some(f) => if (f as nat) < len { f as nat } else { len },
        None => len,
    }
}

/// The transformed datagram: byte `i` XORed with key byte `i mod |key|`
/// below the limit, and unchanged at or beyond it.
pub open spec fn obfs_seq(data: Seq<u8>, key: Seq<u8>, first: Option<usize>) -> Seq<u8>
    recommends
        key.len() > 0,
{
    Seq::new(
        data.len(),
        |i: int| if i < obfs_limit(data.len(), first) {
            data[i] ^ key[i % (key.len() as int)]
        } else {
            data[i]
        },
    )
}

/// XOR-transform `data` in place with `cfg`'s repeating key, limited to the
/// first `cfg.first` bytes when that is set.
pub fn xor_obfuscate(data: &mut Vec<u8>, cfg: &ObfsConfig)
    requires
        cfg.wf(),
    ensures
        final(data)@ == obfs_seq(old(data)@, cfg.key@, cfg.first),
{
    let len: usize = data.len();
    let limit: usize = match cfg.first {
        Some(f) => if f < len {
            f
        } else {
            len
        },
        None => len,
    };
    let klen: usize = cfg.key.len();
    let mut i: usize = 0;
    while i < limit
        invariant
            cfg.key@.len() == klen,
            klen > 0,
            i <= limit,
            limit == obfs_limit(old(data)@.len(), cfg.first),
            data@.len() == old(data)@.len(),
            limit <= data@.len(),
            forall|j: int| 0 <= j < i ==> data@[j] == obfs_seq(old(data)@, cfg.key@, cfg.first)[j],
            forall|j: int| i <= j < data@.len() ==> data@[j] == old(data)@[j],
        decreases limit - i,
    {
        let k: u8 = cfg.key[i % klen];
        let b: u8 = data[i];
        data.set(i, b ^ k);
        i += 1;
    }
    proof {
        assert(data@ =~= obfs_seq(old(data)@, cfg.key@, cfg.first));
    }
}

/// Transforming twice with the same configuration restores the input:
/// XOR with the same key byte is its own inverse, and bytes beyond the
/// limit are untouched both times.
pub proof fn lemma_obfs_involution(data: Seq<u8>, key: Seq<u8>, first: Option<usize>)
    requires
        key.len() > 0,
    ensures
        obfs_seq(obfs_seq(data, key, first), key, first) == data,
{
    let once = obfs_seq(data, key, first);
    let twice = obfs_seq(once, key, first);
    assert forall|i: int| 0 <= i < data.len() implies twice[i] == data[i] by {
        if i < obfs_limit(data.len(), first) {
            let b = data[i];
            let k = key[i % (key.len() as int)];
            assert((b ^ k) ^ k == b) by (bit_vector);
        }
    }
    assert(twice =~= data);
}

/// With the limit set to `n`, every byte at index `n` or beyond is
/// bitwise identical between input and output.
pub proof fn lemma_obfs_prefix_only(data: Seq<u8>, key: Seq<u8>, n: usize)
    requires
        key.len() > 0,
    ensures
        forall|i: int| n <= i < data.len() ==> obfs_seq(data, key, Some(n))[i] == data[i],
{
}

/// With an all-zero key the transform is the identity: what leaves the
/// relay equals what the peer sent, byte for byte.
pub proof fn lemma_obfs_zero_key(data: Seq<u8>, key: Seq<u8>, first: Option<usize>)
    requires
        key.len() > 0,
        forall|i: int| 0 <= i < key.len() ==> key[i] == 0,
    ensures
        obfs_seq(data, key, first) == data,
{
    let out = obfs_seq(data, key, first);
    assert forall|i: int| 0 <= i < data.len() implies out[i] == data[i] by {
        if i < obfs_limit(data.len(), first) {
            let b = data[i];
            assert(b ^ 0u8 == b) by (bit_vector);
        }
    }
    assert(out =~= data);
}

} // verus!
