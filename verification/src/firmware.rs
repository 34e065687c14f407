//! Firmware images: the padded image cut into blocks of 16 bytes, its checksum,
//! and the store that finds an image by type and version.

use vstd::prelude::*;

verus! {

/// Bytes in one block of an image.
pub const BLOCK_SIZE: usize = 16;

/// The byte that fills an image up to a whole block, and a block that does not exist.
pub const PAD: u8 = 0xFFu8;

/// One step of the checksum: shift right, and fold the polynomial in where a bit fell out.
pub open spec fn crc_round(c: u16) -> u16 {
    if c & 1u16 == 1u16 {
        (c >> 1u16) ^ 0xA001u16
    } else {
        c >> 1u16
    }
}

/// The checksum after one more byte: the byte is folded into the low half, then eight steps.
pub open spec fn crc_update(crc: u16, b: u8) -> u16 {
    crc_round(
        crc_round(
            crc_round(crc_round(crc_round(crc_round(crc_round(crc_round(crc ^ (b as u16))))))),
        ),
    )
}

/// The 16-bit checksum of `data`: reflected polynomial `0xA001`, start value
/// `0xFFFF`, low bit first, nothing folded in at the end.
pub open spec fn crc16(data: Seq<u8>) -> u16
    decreases data.len(),
{
    if data.len() == 0 {
        0xFFFFu16
    } else {
        crc_update(crc16(data.drop_last()), data.last())
    }
}

/// One step of the checksum.
fn crc_step(c: u16) -> (r: u16)
    ensures
        r == crc_round(c),
{
    if c & 1u16 == 1u16 {
        (c >> 1u16) ^ 0xA001u16
    } else {
        c >> 1u16
    }
}

/// Folds one byte into a running checksum.
pub fn crc_push(crc: u16, b: u8) -> (r: u16)
    ensures
        r == crc_update(crc, b),
{
    let c0 = crc ^ (b as u16);
    let c1 = crc_step(c0);
    let c2 = crc_step(c1);
    let c3 = crc_step(c2);
    let c4 = crc_step(c3);
    let c5 = crc_step(c4);
    let c6 = crc_step(c5);
    let c7 = crc_step(c6);
    crc_step(c7)
}

/// The checksum of `data`.
pub fn compute_crc(data: &[u8]) -> (r: u16)
    ensures
        r == crc16(data@),
{
    let mut crc: u16 = 0xFFFF;
    let mut i: usize = 0;
    while i < data.len()
        invariant
            i <= data.len(),
            crc == crc16(data@.take(i as int)),
        decreases data.len() - i,
    {
        proof {
            assert(data@.take(i as int + 1).drop_last() =~= data@.take(i as int));
        }
        crc = crc_push(crc, data[i]);
        i = i + 1;
    }
    proof {
        assert(data@.take(data.len() as int) =~= data@);
    }
    crc
}

/// How many pad bytes bring a length up to a whole number of blocks.
pub open spec fn pad_len(n: nat) -> nat {
    ((16 - n % 16) % 16) as nat
}

/// `data` followed by pad bytes up to a whole number of blocks.
pub open spec fn padded(data: Seq<u8>) -> Seq<u8> {
    data + Seq::new(pad_len(data.len()), |i: int| PAD)
}

/// Block `block` of an image: its 16 bytes, or 16 pad bytes where the image ends before it.
pub open spec fn block_of(data: Seq<u8>, block: int) -> Seq<u8> {
    if 0 <= block && 16 * block + 16 <= data.len() {
        data.subrange(16 * block, 16 * block + 16)
    } else {
        Seq::new(16, |i: int| PAD)
    }
}

/// Pads `data` in place up to a whole number of blocks.
pub fn pad_image(data: &mut Vec<u8>)
    requires
        old(data).len() <= usize::MAX - 16,
    ensures
        final(data)@ == padded(old(data)@),
        final(data)@.len() % 16 == 0,
{
    while data.len() % 16 != 0
        invariant
            old(data).len() <= data.len() <= old(data).len() + pad_len(old(data)@.len()),
            data.len() + pad_len(data@.len()) == old(data).len() + pad_len(old(data)@.len()),
            old(data).len() <= usize::MAX - 16,
            forall|j: int| 0 <= j < old(data).len() ==> data@[j] == old(data)@[j],
            forall|j: int| old(data).len() <= j < data.len() ==> data@[j] == PAD,
        decreases pad_len(data@.len()),
    {
        data.push(PAD);
    }
    assert(data@ =~= padded(old(data)@));
}

/// One firmware: what the image is for, and the padded image with its block count and checksum.
#[derive(Debug, Clone)]
pub struct Firmware {
    pub firmware_type: u16,
    pub firmware_version: u16,
    pub blocks: u16,
    pub crc: u16,
    pub data: Vec<u8>,
    pub name: String,
}

impl Firmware {
    /// The image is a whole number of blocks, counted in `blocks`, and `crc` is its checksum.
    pub open spec fn wf(&self) -> bool {
        &&& self.data@.len() == 16 * self.blocks
        &&& self.crc == crc16(self.data@)
    }

    /// Builds a firmware from the bytes of its image: pads them, counts the
    /// blocks and computes the checksum. `None` where the blocks cannot be
    /// counted in 16 bits.
    pub fn from_image(firmware_type: u16, firmware_version: u16, name: String, image: Vec<u8>) -> (r:
        Option<Firmware>)
        ensures
            r is Some <==> image@.len() <= 16 * 0xFFFF,
            r is Some ==> {
                let f = r.unwrap();
                &&& f.wf()
                &&& f.firmware_type == firmware_type
                &&& f.firmware_version == firmware_version
                &&& f.name == name
                &&& f.data@ == padded(image@)
            },
    {
        if image.len() > 16 * 0xFFFF {
            return None;
        }
        let mut data = image;
        pad_image(&mut data);
        let blocks: u16 = (data.len() / 16) as u16;
        let crc = compute_crc(data.as_slice());
        Some(Firmware { firmware_type, firmware_version, blocks, crc, data, name })
    }

    /// Block `block` of the image; 16 pad bytes where the image has no such block.
    pub fn block(&self, block: u16) -> (r: Vec<u8>)
        ensures
            r@ == block_of(self.data@, block as int),
            r@.len() == 16,
    {
        let mut out: Vec<u8> = Vec::new();
        let start: usize = 16 * (block as usize);
        let present: bool = start + 16 <= self.data.len();
        let mut i: usize = 0;
        while i < 16
            invariant
                i <= 16,
                start == 16 * block,
                present == (start + 16 <= self.data.len()),
                out@.len() == i,
                forall|j: int| 0 <= j < i ==> out@[j] == block_of(self.data@, block as int)[j],
            decreases 16 - i,
        {
            if present {
                out.push(self.data[start + i]);
            } else {
                out.push(PAD);
            }
            i = i + 1;
        }
        assert(out@ =~= block_of(self.data@, block as int));
        out
    }
}

/// The firmwares that the proxy can hand out.
pub struct FirmwareStore {
    pub firmwares: Vec<Firmware>,
}

impl FirmwareStore {
    /// Position of the first firmware of the given type and version among the
    /// first `n`, or `n` if there is none.
    pub open spec fn position(&self, firmware_type: u16, firmware_version: u16, n: int) -> int
        decreases n,
    {
        if n <= 0 {
            0
        } else {
            let p = self.position(firmware_type, firmware_version, n - 1);
            if p < n - 1 {
                p
            } else if self.firmwares@[n - 1].firmware_type == firmware_type && self.firmwares@[n
                - 1].firmware_version == firmware_version {
                n - 1
            } else {
                n
            }
        }
    }

    /// Whether the store holds a firmware of the given type and version.
    pub open spec fn holds(&self, firmware_type: u16, firmware_version: u16) -> bool {
        exists|i: int|
            0 <= i < self.firmwares@.len() && (#[trigger] self.firmwares@[i]).firmware_type
                == firmware_type && self.firmwares@[i].firmware_version == firmware_version
    }

    /// Every firmware in the store is well formed.
    pub open spec fn wf(&self) -> bool {
        forall|i: int| 0 <= i < self.firmwares@.len() ==> (#[trigger] self.firmwares@[i]).wf()
    }

    /// An empty store.
    pub fn new() -> (r: FirmwareStore)
        ensures
            r.firmwares@.len() == 0,
            r.wf(),
    {
        FirmwareStore { firmwares: Vec::new() }
    }

    /// Adds a firmware behind those that the store holds.
    pub fn add(&mut self, firmware: Firmware)
        ensures
            final(self).firmwares@ == old(self).firmwares@.push(firmware),
            old(self).wf() && firmware.wf() ==> final(self).wf(),
    {
        self.firmwares.push(firmware);
    }

    /// The first firmware of the given type and version; `None` where the store holds none.
    pub fn get(&self, firmware_type: u16, firmware_version: u16) -> (r: Option<&Firmware>)
        ensures
            r is Some <==> self.holds(firmware_type, firmware_version),
            r is Some ==> {
                let p = self.position(firmware_type, firmware_version, self.firmwares@.len() as int);
                &&& 0 <= p < self.firmwares@.len()
                &&& *r.unwrap() == self.firmwares@[p]
                &&& r.unwrap().firmware_type == firmware_type
                &&& r.unwrap().firmware_version == firmware_version
                &&& self.wf() ==> r.unwrap().wf()
            },
    {
        let mut i: usize = 0;
        while i < self.firmwares.len()
            invariant
                i <= self.firmwares.len(),
                self.position(firmware_type, firmware_version, i as int) == i,
                forall|j: int|
                    0 <= j < i ==> !((#[trigger] self.firmwares@[j]).firmware_type == firmware_type
                        && self.firmwares@[j].firmware_version == firmware_version),
            decreases self.firmwares.len() - i,
        {
            let f = &self.firmwares[i];
            if f.firmware_type == firmware_type && f.firmware_version == firmware_version {
                proof {
                    self.lemma_position_stays(
                        firmware_type,
                        firmware_version,
                        i as int,
                        self.firmwares@.len() as int,
                    );
                }
                return Some(f);
            }
            i = i + 1;
        }
        None
    }

    /// Once a match is found at `p`, looking at more firmwares does not move it.
    pub proof fn lemma_position_stays(&self, firmware_type: u16, firmware_version: u16, p: int, n: int)
        requires
            0 <= p < n <= self.firmwares@.len(),
            self.position(firmware_type, firmware_version, p) == p,
            self.firmwares@[p].firmware_type == firmware_type,
            self.firmwares@[p].firmware_version == firmware_version,
        ensures
            self.position(firmware_type, firmware_version, n) == p,
        decreases n,
    {
        if n > p + 1 {
            self.lemma_position_stays(firmware_type, firmware_version, p, n - 1);
        }
    }
}

} // verus!
