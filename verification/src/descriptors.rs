//! Microsoft OS feature descriptors: the compatible-ID descriptor that
//! binds an interface to the WinUSB driver, and the extended-properties
//! descriptor that publishes a device interface GUID in the registry.
//!
//! Strings travel as UTF-16 code units and are serialized little-endian;
//! reserved header bytes are emitted as zeroes.

use vstd::prelude::*;

verus! {

/// A 16-bit value, little-endian.
pub open spec fn spec_le16(v: u16) -> Seq<u8> {
    seq![(v % 256) as u8, (v / 256) as u8]
}

/// A 32-bit value, little-endian.
pub open spec fn spec_le32(v: u32) -> Seq<u8> {
    seq![
        (v % 256) as u8,
        ((v / 256) % 256) as u8,
        ((v / 0x10000) % 256) as u8,
        ((v / 0x1000000) % 256) as u8,
    ]
}

/// UTF-16 code units as little-endian byte pairs.
pub open spec fn spec_utf16_le(units: Seq<u16>) -> Seq<u8> {
    Seq::new(
        2 * units.len(),
        |i: int|
            if i % 2 == 0 {
                (units[i / 2] % 256) as u8
            } else {
                (units[i / 2] / 256) as u8
            },
    )
}

/// Appends a 16-bit value, little-endian.
pub fn push_le16(out: &mut Vec<u8>, v: u16)
    ensures
        final(out)@ == old(out)@ + spec_le16(v),
{
    out.push((v % 256) as u8);
    out.push((v / 256) as u8);
    proof {
        assert(out@ =~= old(out)@ + spec_le16(v));
    }
}

/// Appends a 32-bit value, little-endian.
pub fn push_le32(out: &mut Vec<u8>, v: u32)
    ensures
        final(out)@ == old(out)@ + spec_le32(v),
{
    out.push((v % 256) as u8);
    out.push(((v / 256) % 256) as u8);
    out.push(((v / 0x10000) % 256) as u8);
    out.push(((v / 0x1000000) % 256) as u8);
    proof {
        assert(out@ =~= old(out)@ + spec_le32(v));
    }
}

/// Appends UTF-16 code units as little-endian byte pairs.
pub fn push_utf16_le(out: &mut Vec<u8>, units: &Vec<u16>)
    ensures
        final(out)@ == old(out)@ + spec_utf16_le(units@),
{
    let base = out.len();
    let mut i: usize = 0;
    while i < units.len()
        invariant
            0 <= i <= units@.len(),
            out@.len() == base + 2 * i,
            base == old(out)@.len(),
            out@.subrange(0, base as int) == old(out)@,
            forall|t: int|
                0 <= t < i ==> out@[base + 2 * t] == (units@[t] % 256) as u8 && out@[base + 2 * t
                    + 1] == (units@[t] / 256) as u8,
        decreases units@.len() - i,
    {
        let u = units[i];
        out.push((u % 256) as u8);
        out.push((u / 256) as u8);
        proof {
            assert(out@.subrange(0, base as int) =~= old(out)@);
        }
        i = i + 1;
    }
    proof {
        assert forall|j: int| 0 <= j < out@.len() implies out@[j] == (old(out)@ + spec_utf16_le(
            units@,
        ))[j] by {
            if j >= base {
                let t = (j - base) / 2;
                if (j - base) % 2 == 0 {
                    assert(j == base + 2 * t);
                } else {
                    assert(j == base + 2 * t + 1);
                }
            } else {
                assert(out@.subrange(0, base as int)[j] == old(out)@[j]);
            }
        }
        assert(out@ =~= old(out)@ + spec_utf16_le(units@));
    }
}

/// One function section of the compatible-ID descriptor.
#[allow(non_snake_case)]
#[derive(Debug)]
pub struct MSCompatibleIDDescriptorFunction {
    /// Interface the compatible ID applies to.
    pub bInterfaceNumber: u8,
    /// Compatible ID, 8 bytes, zero padded.
    pub sCompatibleID: Vec<u8>,
    /// Sub-compatible ID, 8 bytes, zero padded.
    pub sSubCompatibleID: Vec<u8>,
}

impl MSCompatibleIDDescriptorFunction {
    /// Both ID fields hold exactly their 8 bytes.
    pub open spec fn wf(&self) -> bool {
        &&& self.sCompatibleID@.len() == 8
        &&& self.sSubCompatibleID@.len() == 8
    }
}

/// The 24 bytes of one function section: interface number, a reserved
/// byte, the two IDs, then six reserved bytes.
pub open spec fn spec_function_bytes(f: MSCompatibleIDDescriptorFunction) -> Seq<u8> {
    seq![f.bInterfaceNumber, 0u8] + f.sCompatibleID@ + f.sSubCompatibleID@ + seq![
        0u8,
        0,
        0,
        0,
        0,
        0,
    ]
}

/// The sections of the first `i` functions, concatenated.
pub open spec fn spec_functions_bytes(fs: Seq<MSCompatibleIDDescriptorFunction>, i: int) -> Seq<
    u8,
>
    decreases i,
{
    if i <= 0 {
        Seq::empty()
    } else {
        spec_functions_bytes(fs, i - 1) + spec_function_bytes(fs[i - 1])
    }
}

/// The WinUSB compatible-ID OS feature descriptor.
#[allow(non_snake_case)]
#[derive(Debug)]
pub struct MSCompatibleIDDescriptor {
    /// Total length in bytes, as reported to the host.
    pub dwLength: u32,
    /// Version of the descriptor format.
    pub bcdVersion: u16,
    /// Feature index of the descriptor.
    pub wIndex: u16,
    /// Number of function sections.
    pub bNumSections: u8,
    /// The function sections.
    pub features: Vec<MSCompatibleIDDescriptorFunction>,
}

/// The full byte image: the 16-byte header followed by the sections.
pub open spec fn spec_compat_descriptor_bytes(d: MSCompatibleIDDescriptor) -> Seq<u8> {
    spec_le32(d.dwLength) + spec_le16(d.bcdVersion) + spec_le16(d.wIndex) + seq![d.bNumSections]
        + seq![0u8, 0, 0, 0, 0, 0, 0] + spec_functions_bytes(d.features@, d.features@.len() as int)
}

impl MSCompatibleIDDescriptor {
    /// Every function section is well formed.
    pub open spec fn wf(&self) -> bool {
        forall|i: int| 0 <= i < self.features@.len() ==> (#[trigger] self.features@[i]).wf()
    }

    /// Serializes the descriptor: header, reserved bytes as zeroes, then
    /// each function section in order.
    pub fn to_bytes(&self) -> (r: Vec<u8>)
        requires
            self.wf(),
        ensures
            r@ == spec_compat_descriptor_bytes(*self),
    {
        let mut out: Vec<u8> = Vec::new();
        push_le32(&mut out, self.dwLength);
        push_le16(&mut out, self.bcdVersion);
        push_le16(&mut out, self.wIndex);
        out.push(self.bNumSections);
        out.push(0);
        out.push(0);
        out.push(0);
        out.push(0);
        out.push(0);
        out.push(0);
        out.push(0);
        let ghost header = out@;
        let mut i: usize = 0;
        while i < self.features.len()
            invariant
                0 <= i <= self.features@.len(),
                self.wf(),
                out@ == header + spec_functions_bytes(self.features@, i as int),
            decreases self.features@.len() - i,
        {
            let f = &self.features[i];
            out.push(f.bInterfaceNumber);
            out.push(0);
            let mut t: usize = 0;
            let ghost before_ids = out@;
            while t < 8
                invariant
                    0 <= t <= 8,
                    self.features@[i as int].wf(),
                    f == self.features@[i as int],
                    out@ == before_ids + f.sCompatibleID@.take(t as int),
                decreases 8 - t,
            {
                out.push(f.sCompatibleID[t]);
                proof {
                    assert(out@ =~= before_ids + f.sCompatibleID@.take(t + 1));
                }
                t = t + 1;
            }
            let mut t2: usize = 0;
            let ghost before_sub = out@;
            while t2 < 8
                invariant
                    0 <= t2 <= 8,
                    self.features@[i as int].wf(),
                    f == self.features@[i as int],
                    out@ == before_sub + f.sSubCompatibleID@.take(t2 as int),
                decreases 8 - t2,
            {
                out.push(f.sSubCompatibleID[t2]);
                proof {
                    assert(out@ =~= before_sub + f.sSubCompatibleID@.take(t2 + 1));
                }
                t2 = t2 + 1;
            }
            out.push(0);
            out.push(0);
            out.push(0);
            out.push(0);
            out.push(0);
            out.push(0);
            proof {
                assert(f.sCompatibleID@.take(8) =~= f.sCompatibleID@);
                assert(f.sSubCompatibleID@.take(8) =~= f.sSubCompatibleID@);
                assert(out@ =~= header + spec_functions_bytes(self.features@, i + 1));
            }
            i = i + 1;
        }
        proof {
            assert(out@ =~= spec_compat_descriptor_bytes(*self));
        }
        out
    }

    /// The length the descriptor reports for itself.
    pub fn len(&self) -> (r: usize)
        requires
            self.dwLength <= usize::MAX,
        ensures
            r == self.dwLength as usize,
    {
        self.dwLength as usize
    }
}

/// Feature index of an OS feature descriptor request.
#[derive(Debug, Clone, Copy, PartialEq, Eq, Structural)]
pub enum OSFeatureDescriptorType {
    CompatibleID,
    Properties,
}

impl OSFeatureDescriptorType {
    /// The wire value of the feature index.
    pub open spec fn spec_value(self) -> u16 {
        match self {
            OSFeatureDescriptorType::CompatibleID => 4,
            OSFeatureDescriptorType::Properties => 5,
        }
    }

    /// The wire value of the feature index.
    #[verifier::when_used_as_spec(spec_value)]
    pub fn value(self) -> (r: u16)
        ensures
            r == self.spec_value(),
    {
        match self {
            OSFeatureDescriptorType::CompatibleID => 4,
            OSFeatureDescriptorType::Properties => 5,
        }
    }

    /// The feature index decoded from its wire value, if any.
    pub open spec fn spec_from_value(v: u16) -> Option<OSFeatureDescriptorType> {
        match v {
            4 => Some(OSFeatureDescriptorType::CompatibleID),
            5 => Some(OSFeatureDescriptorType::Properties),
            _ => None,
        }
    }

    /// Decodes the feature index from its wire value.
    pub fn from_value(v: u16) -> (r: Option<OSFeatureDescriptorType>)
        ensures
            r == OSFeatureDescriptorType::spec_from_value(v),
    {
        match v {
            4 => Some(OSFeatureDescriptorType::CompatibleID),
            5 => Some(OSFeatureDescriptorType::Properties),
            _ => None,
        }
    }
}

/// Registry data type of an extended property.
#[allow(non_camel_case_types)]
#[derive(Debug, Clone, Copy, PartialEq, Eq, Structural)]
pub enum MSPropertyDataType {
    REG_SZ,
    REG_EXPAND_SZ,
    REG_BINARY,
    REG_DWORD_LITTLE_ENDIAN,
    REG_DWORD_BIG_ENDIAN,
    REG_LINK,
    REG_MULTI_SZ,
}

impl MSPropertyDataType {
    /// The wire value of the data type.
    pub open spec fn spec_value(self) -> u32 {
        match self {
            MSPropertyDataType::REG_SZ => 1,
            MSPropertyDataType::REG_EXPAND_SZ => 2,
            MSPropertyDataType::REG_BINARY => 3,
            MSPropertyDataType::REG_DWORD_LITTLE_ENDIAN => 4,
            MSPropertyDataType::REG_DWORD_BIG_ENDIAN => 5,
            MSPropertyDataType::REG_LINK => 6,
            MSPropertyDataType::REG_MULTI_SZ => 7,
        }
    }

    /// The wire value of the data type.
    #[verifier::when_used_as_spec(spec_value)]
    pub fn value(self) -> (r: u32)
        ensures
            r == self.spec_value(),
    {
        match self {
            MSPropertyDataType::REG_SZ => 1,
            MSPropertyDataType::REG_EXPAND_SZ => 2,
            MSPropertyDataType::REG_BINARY => 3,
            MSPropertyDataType::REG_DWORD_LITTLE_ENDIAN => 4,
            MSPropertyDataType::REG_DWORD_BIG_ENDIAN => 5,
            MSPropertyDataType::REG_LINK => 6,
            MSPropertyDataType::REG_MULTI_SZ => 7,
        }
    }
}

/// One custom property of the extended-properties descriptor.  The name
/// and the data travel as UTF-16 code units, terminator included.
#[allow(non_snake_case)]
#[derive(Debug)]
pub struct MSPropertiesOSDescriptorFeature {
    /// Registry data type of the property value.
    pub dwPropertyDataType: u32,
    /// Property name, UTF-16 code units.
    pub bPropertyName: Vec<u16>,
    /// Property data, UTF-16 code units.
    pub bPropertyData: Vec<u16>,
}

/// Length in bytes of one serialized property section.
pub open spec fn spec_property_len(f: MSPropertiesOSDescriptorFeature) -> int {
    14 + 2 * (f.bPropertyName@.len() as int) + 2 * (f.bPropertyData@.len() as int)
}

/// The byte image of one property section: its size, the data type, the
/// name with its length, then the data with its length.
pub open spec fn spec_property_bytes(f: MSPropertiesOSDescriptorFeature) -> Seq<u8> {
    spec_le32(spec_property_len(f) as u32) + spec_le32(f.dwPropertyDataType) + spec_le16(
        (2 * f.bPropertyName@.len()) as u16,
    ) + spec_utf16_le(f.bPropertyName@) + spec_le32((2 * f.bPropertyData@.len()) as u32)
        + spec_utf16_le(f.bPropertyData@)
}

impl MSPropertiesOSDescriptorFeature {
    /// Both strings are short enough for their length fields.
    pub open spec fn wf(&self) -> bool {
        &&& self.bPropertyName@.len() <= 0x7FFF
        &&& self.bPropertyData@.len() <= 0x7FFF
    }

    /// Length in bytes of the UTF-16 name.
    fn name_len(&self) -> (r: usize)
        requires
            self.wf(),
        ensures
            r == 2 * self.bPropertyName@.len(),
    {
        self.bPropertyName.len() * 2
    }

    /// Length in bytes of the UTF-16 data.
    fn data_len(&self) -> (r: usize)
        requires
            self.wf(),
        ensures
            r == 2 * self.bPropertyData@.len(),
    {
        self.bPropertyData.len() * 2
    }

    /// Total length in bytes of the serialized section.
    pub fn len(&self) -> (r: usize)
        requires
            self.wf(),
        ensures
            r == spec_property_len(*self),
    {
        14 + self.name_len() + self.data_len()
    }

    /// The serialized section.
    fn build_bytes(&self) -> (r: Vec<u8>)
        requires
            self.wf(),
        ensures
            r@ == spec_property_bytes(*self),
    {
        let mut out: Vec<u8> = Vec::new();
        let total = self.len();
        push_le32(&mut out, total as u32);
        push_le32(&mut out, self.dwPropertyDataType);
        push_le16(&mut out, self.name_len() as u16);
        push_utf16_le(&mut out, &self.bPropertyName);
        push_le32(&mut out, self.data_len() as u32);
        push_utf16_le(&mut out, &self.bPropertyData);
        proof {
            assert(out@ =~= spec_property_bytes(*self));
        }
        out
    }

    /// Writes the section over the front of `buf`, which must be at least
    /// as long; bytes beyond it stay as they were.
    pub fn write_to_buf(&self, buf: &mut Vec<u8>)
        requires
            self.wf(),
            spec_property_len(*self) <= old(buf)@.len(),
        ensures
            final(buf)@.len() == old(buf)@.len(),
            final(buf)@ == spec_property_bytes(*self) + old(buf)@.skip(spec_property_len(*self)),
    {
        let img = self.build_bytes();
        overwrite_prefix(buf, &img);
    }
}

/// Length in bytes of the first `i` property sections.
pub open spec fn spec_properties_len(fs: Seq<MSPropertiesOSDescriptorFeature>, i: int) -> int
    decreases i,
{
    if i <= 0 {
        0
    } else {
        spec_properties_len(fs, i - 1) + spec_property_len(fs[i - 1])
    }
}

/// The byte images of the first `i` property sections, concatenated.
pub open spec fn spec_properties_bytes(fs: Seq<MSPropertiesOSDescriptorFeature>, i: int) -> Seq<
    u8,
>
    decreases i,
{
    if i <= 0 {
        Seq::empty()
    } else {
        spec_properties_bytes(fs, i - 1) + spec_property_bytes(fs[i - 1])
    }
}

/// The byte image of a prefix of sections is as long as the sections say.
pub proof fn lemma_properties_bytes_len(fs: Seq<MSPropertiesOSDescriptorFeature>, i: int)
    requires
        0 <= i <= fs.len(),
    ensures
        spec_properties_bytes(fs, i).len() == spec_properties_len(fs, i),
    decreases i,
{
    if i > 0 {
        lemma_properties_bytes_len(fs, i - 1);
    }
}

/// The WinUSB extended-properties OS feature descriptor.
#[allow(non_snake_case)]
#[derive(Debug)]
pub struct MSPropertiesOSDescriptor {
    /// Version of the descriptor format.
    pub bcdVersion: u16,
    /// Feature index of the descriptor.
    pub wIndex: u16,
    /// Number of property sections.
    pub wCount: u16,
    /// The property sections.
    pub features: Vec<MSPropertiesOSDescriptorFeature>,
}

/// Total length in bytes of the serialized descriptor.
pub open spec fn spec_properties_descriptor_len(d: MSPropertiesOSDescriptor) -> int {
    10 + spec_properties_len(d.features@, d.features@.len() as int)
}

/// The full byte image: the 10-byte header, then the property sections.
pub open spec fn spec_properties_descriptor_bytes(d: MSPropertiesOSDescriptor) -> Seq<u8> {
    spec_le32(spec_properties_descriptor_len(d) as u32) + spec_le16(d.bcdVersion) + spec_le16(
        d.wIndex,
    ) + spec_le16(d.wCount) + spec_properties_bytes(d.features@, d.features@.len() as int)
}

impl MSPropertiesOSDescriptor {
    /// Every section is well formed, and there are few enough of them for
    /// the length field.
    pub open spec fn wf(&self) -> bool {
        &&& self.features@.len() <= 1000
        &&& forall|i: int| 0 <= i < self.features@.len() ==> (#[trigger] self.features@[i]).wf()
    }

    /// Total length in bytes of the serialized descriptor, the length of
    /// the variable UTF-16 string contents included.
    pub fn len(&self) -> (r: usize)
        requires
            self.wf(),
        ensures
            r == spec_properties_descriptor_len(*self),
            r <= 10 + 131086 * self.features@.len(),
    {
        let mut acc: usize = 10;
        let mut i: usize = 0;
        while i < self.features.len()
            invariant
                0 <= i <= self.features@.len(),
                self.wf(),
                acc == 10 + spec_properties_len(self.features@, i as int),
                acc <= 10 + 131086 * i,
            decreases self.features@.len() - i,
        {
            acc = acc + self.features[i].len();
            i = i + 1;
        }
        acc
    }

    /// Writes the descriptor over the front of `buf`, which must be at
    /// least `self.len()` long; bytes beyond it stay as they were.
    pub fn write_to_buf(&self, buf: &mut Vec<u8>)
        requires
            self.wf(),
            spec_properties_descriptor_len(*self) <= old(buf)@.len(),
        ensures
            final(buf)@.len() == old(buf)@.len(),
            final(buf)@ == spec_properties_descriptor_bytes(*self) + old(buf)@.skip(
                spec_properties_descriptor_len(*self),
            ),
    {
        let total = self.len();
        let mut out: Vec<u8> = Vec::new();
        push_le32(&mut out, total as u32);
        push_le16(&mut out, self.bcdVersion);
        push_le16(&mut out, self.wIndex);
        push_le16(&mut out, self.wCount);
        let ghost header = out@;
        let mut i: usize = 0;
        while i < self.features.len()
            invariant
                0 <= i <= self.features@.len(),
                self.wf(),
                out@ == header + spec_properties_bytes(self.features@, i as int),
            decreases self.features@.len() - i,
        {
            let img = self.features[i].build_bytes();
            push_bytes(&mut out, &img);
            i = i + 1;
        }
        proof {
            assert(out@ =~= spec_properties_descriptor_bytes(*self));
            lemma_properties_bytes_len(self.features@, self.features@.len() as int);
        }
        overwrite_prefix(buf, &out);
    }
}

/// Appends all of `src`.
pub fn push_bytes(out: &mut Vec<u8>, src: &Vec<u8>)
    ensures
        final(out)@ == old(out)@ + src@,
{
    let mut i: usize = 0;
    while i < src.len()
        invariant
            0 <= i <= src@.len(),
            out@ == old(out)@ + src@.take(i as int),
        decreases src@.len() - i,
    {
        out.push(src[i]);
        proof {
            assert(out@ =~= old(out)@ + src@.take(i + 1));
        }
        i = i + 1;
    }
    proof {
        assert(src@.take(src@.len() as int) =~= src@);
    }
}

/// Copies `src` over the front of `buf`, leaving the bytes beyond it.
pub fn overwrite_prefix(buf: &mut Vec<u8>, src: &Vec<u8>)
    requires
        src@.len() <= old(buf)@.len(),
    ensures
        final(buf)@.len() == old(buf)@.len(),
        final(buf)@ == src@ + old(buf)@.skip(src@.len() as int),
{
    let mut i: usize = 0;
    while i < src.len()
        invariant
            0 <= i <= src@.len(),
            src@.len() <= buf@.len(),
            buf@.len() == old(buf)@.len(),
            forall|t: int| 0 <= t < i ==> buf@[t] == src@[t],
            forall|t: int| i <= t < buf@.len() ==> buf@[t] == old(buf)@[t],
        decreases src@.len() - i,
    {
        buf.set(i, src[i]);
        i = i + 1;
    }
    proof {
        assert(final(buf)@ =~= src@ + old(buf)@.skip(src@.len() as int));
    }
}

} // verus!
