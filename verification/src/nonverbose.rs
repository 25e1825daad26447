//! In-memory model of the FIBEX catalog that non-verbose rendering
//! consults: frame lookups keyed by frame id, or by context, application
//! and frame id together.
use vstd::prelude::*;

verus! {

use crate::types::{TypeInfo, display_clean};

/// One protocol data unit of a frame: either a static description string,
/// or a sequence of typed signals read from the payload.
#[derive(Debug, Clone, PartialEq)]
pub struct Pdu {
    pub description: Option<Vec<u8>>,
    pub signal_types: Vec<TypeInfo>,
}

/// What the catalog knows about one frame.
#[derive(Debug, Clone, PartialEq)]
pub struct FrameMetadata {
    pub application_id: Option<Vec<u8>>,
    pub context_id: Option<Vec<u8>>,
    pub message_info: Option<Vec<u8>>,
    pub pdus: Vec<Pdu>,
}

/// One entry of the keyed lookup: context id, application id, frame id.
#[derive(Debug, Clone, PartialEq)]
pub struct KeyedFrame {
    pub context_id: Vec<u8>,
    pub application_id: Vec<u8>,
    pub frame_id: u32,
    pub frame: FrameMetadata,
}

/// One entry of the fallback lookup, keyed by frame id alone.
#[derive(Debug, Clone, PartialEq)]
pub struct IdFrame {
    pub frame_id: u32,
    pub frame: FrameMetadata,
}

/// The catalog: a keyed map for messages with an extended header, and a
/// fallback map for messages without one. Keys are unique in each list.
#[derive(Debug, Clone, PartialEq)]
pub struct FibexMetadata {
    pub frame_map_with_key: Vec<KeyedFrame>,
    pub frame_map: Vec<IdFrame>,
}


/// Ghost image of a protocol data unit.
pub struct PduV {
    pub description: Option<Seq<u8>>,
    pub signal_types: Seq<TypeInfo>,
}

impl View for Pdu {
    type V = PduV;

    open spec fn view(&self) -> PduV {
        PduV {
            description: match self.description {
                Some(ref d) => Some(d@),
                None => None,
            },
            signal_types: self.signal_types@,
        }
    }
}

/// Ghost image of a frame's metadata.
pub struct FrameMetadataV {
    pub application_id: Option<Seq<u8>>,
    pub context_id: Option<Seq<u8>>,
    pub message_info: Option<Seq<u8>>,
    pub pdus: Seq<PduV>,
}

impl View for FrameMetadata {
    type V = FrameMetadataV;

    open spec fn view(&self) -> FrameMetadataV {
        FrameMetadataV {
            application_id: match self.application_id {
                Some(ref d) => Some(d@),
                None => None,
            },
            context_id: match self.context_id {
                Some(ref d) => Some(d@),
                None => None,
            },
            message_info: match self.message_info {
                Some(ref d) => Some(d@),
                None => None,
            },
            pdus: Seq::new(self.pdus@.len(), |i: int| self.pdus@[i]@),
        }
    }
}

/// Ghost image of a keyed lookup entry.
pub struct KeyedFrameV {
    pub context_id: Seq<u8>,
    pub application_id: Seq<u8>,
    pub frame_id: u32,
    pub frame: FrameMetadataV,
}

impl View for KeyedFrame {
    type V = KeyedFrameV;

    open spec fn view(&self) -> KeyedFrameV {
        KeyedFrameV {
            context_id: self.context_id@,
            application_id: self.application_id@,
            frame_id: self.frame_id,
            frame: self.frame@,
        }
    }
}

/// Ghost image of a fallback lookup entry.
pub struct IdFrameV {
    pub frame_id: u32,
    pub frame: FrameMetadataV,
}

impl View for IdFrame {
    type V = IdFrameV;

    open spec fn view(&self) -> IdFrameV {
        IdFrameV { frame_id: self.frame_id, frame: self.frame@ }
    }
}

/// Ghost image of the catalog.
pub struct FibexV {
    pub keyed: Seq<KeyedFrameV>,
    pub plain: Seq<IdFrameV>,
}

impl View for FibexMetadata {
    type V = FibexV;

    open spec fn view(&self) -> FibexV {
        FibexV {
            keyed: Seq::new(
                self.frame_map_with_key@.len(),
                |i: int| self.frame_map_with_key@[i]@,
            ),
            plain: Seq::new(self.frame_map@.len(), |i: int| self.frame_map@[i]@),
        }
    }
}

/// First keyed entry from index `i` on whose key matches.
pub open spec fn spec_lookup_keyed(
    ks: Seq<KeyedFrameV>,
    ctx: Seq<u8>,
    app: Seq<u8>,
    id: u32,
    i: int,
) -> Option<FrameMetadataV>
    decreases ks.len() - i,
{
    if i < 0 || i >= ks.len() {
        None
    } else if ks[i].frame_id == id && ks[i].context_id == ctx && ks[i].application_id == app {
        Some(ks[i].frame)
    } else {
        spec_lookup_keyed(ks, ctx, app, id, i + 1)
    }
}

/// First fallback entry from index `i` on whose frame id matches.
pub open spec fn spec_lookup_plain(fs: Seq<IdFrameV>, id: u32, i: int) -> Option<FrameMetadataV>
    decreases fs.len() - i,
{
    if i < 0 || i >= fs.len() {
        None
    } else if fs[i].frame_id == id {
        Some(fs[i].frame)
    } else {
        spec_lookup_plain(fs, id, i + 1)
    }
}

impl FibexMetadata {
    /// Look up a frame by context id, application id and frame id: the
    /// first entry whose key matches, if any.
    pub fn lookup_with_key(&self, ctx: &Vec<u8>, app: &Vec<u8>, id: u32) -> (r: Option<
        &FrameMetadata,
    >)
        ensures
            match r {
                Some(f) => spec_lookup_keyed(self@.keyed, ctx@, app@, id, 0) == Some(f@),
                None => spec_lookup_keyed(self@.keyed, ctx@, app@, id, 0) is None,
            },
    {
        let ghost ks = self@.keyed;
        let n = self.frame_map_with_key.len();
        let mut i: usize = 0;
        while i < n
            invariant
                ks == self@.keyed,
                n == self.frame_map_with_key@.len(),
                n == ks.len(),
                i <= n,
                spec_lookup_keyed(ks, ctx@, app@, id, 0) == spec_lookup_keyed(
                    ks,
                    ctx@,
                    app@,
                    id,
                    i as int,
                ),
            decreases n - i,
        {
            let k = &self.frame_map_with_key[i];
            proof {
                assert(ks[i as int] == self.frame_map_with_key@[i as int]@);
            }
            if k.frame_id == id && bytes_eq(&k.context_id, ctx) && bytes_eq(
                &k.application_id,
                app,
            ) {
                return Some(&k.frame);
            }
            i = i + 1;
        }
        None
    }

    /// Look up a frame by frame id alone: the first entry that matches.
    pub fn lookup(&self, id: u32) -> (r: Option<&FrameMetadata>)
        ensures
            match r {
                Some(f) => spec_lookup_plain(self@.plain, id, 0) == Some(f@),
                None => spec_lookup_plain(self@.plain, id, 0) is None,
            },
    {
        let ghost fs = self@.plain;
        let n = self.frame_map.len();
        let mut i: usize = 0;
        while i < n
            invariant
                fs == self@.plain,
                n == self.frame_map@.len(),
                n == fs.len(),
                i <= n,
                spec_lookup_plain(fs, id, 0) == spec_lookup_plain(fs, id, i as int),
            decreases n - i,
        {
            let k = &self.frame_map[i];
            proof {
                assert(fs[i as int] == self.frame_map@[i as int]@);
            }
            if k.frame_id == id {
                return Some(&k.frame);
            }
            i = i + 1;
        }
        None
    }
}

/// Byte-for-byte equality of two vectors.
pub fn bytes_eq(a: &Vec<u8>, b: &Vec<u8>) -> (r: bool)
    ensures
        r == (a@ == b@),
{
    if a.len() != b.len() {
        proof {
            assert(a@ != b@);
        }
        return false;
    }
    let n = a.len();
    let mut i: usize = 0;
    while i < n
        invariant
            n == a@.len() == b@.len(),
            i <= n,
            forall|j: int| 0 <= j < i ==> a@[j] == b@[j],
        decreases n - i,
    {
        if a[i] != b[i] {
            return false;
        }
        i = i + 1;
    }
    proof {
        assert(a@ =~= b@);
    }
    true
}

/// The identifier overrides a frame may carry can stand verbatim in a
/// rendered line.
pub open spec fn frame_fields_clean(fm: FrameMetadataV) -> bool {
    &&& match fm.application_id {
        Some(a) => display_clean(a),
        None => true,
    }
    &&& match fm.context_id {
        Some(c) => display_clean(c),
        None => true,
    }
}

/// Every frame of the catalog has clean identifier overrides.
pub open spec fn catalog_clean(f: FibexV) -> bool {
    &&& forall|i: int| 0 <= i < f.keyed.len() ==> frame_fields_clean(#[trigger] f.keyed[i].frame)
    &&& forall|i: int| 0 <= i < f.plain.len() ==> frame_fields_clean(#[trigger] f.plain[i].frame)
}

/// A keyed lookup in a clean catalog gives back a clean frame.
pub proof fn lemma_lookup_keyed_clean(
    ks: Seq<KeyedFrameV>,
    ctx: Seq<u8>,
    app: Seq<u8>,
    id: u32,
    i: int,
)
    requires
        forall|j: int| 0 <= j < ks.len() ==> frame_fields_clean(#[trigger] ks[j].frame),
    ensures
        match spec_lookup_keyed(ks, ctx, app, id, i) {
            Some(f) => frame_fields_clean(f),
            None => true,
        },
    decreases ks.len() - i,
{
    if 0 <= i < ks.len() {
        if !(ks[i].frame_id == id && ks[i].context_id == ctx && ks[i].application_id == app) {
            lemma_lookup_keyed_clean(ks, ctx, app, id, i + 1);
        }
    }
}

/// A fallback lookup in a clean catalog gives back a clean frame.
pub proof fn lemma_lookup_plain_clean(fs: Seq<IdFrameV>, id: u32, i: int)
    requires
        forall|j: int| 0 <= j < fs.len() ==> frame_fields_clean(#[trigger] fs[j].frame),
    ensures
        match spec_lookup_plain(fs, id, i) {
            Some(f) => frame_fields_clean(f),
            None => true,
        },
    decreases fs.len() - i,
{
    if 0 <= i < fs.len() {
        if fs[i].frame_id != id {
            lemma_lookup_plain_clean(fs, id, i + 1);
        }
    }
}

} // verus!
