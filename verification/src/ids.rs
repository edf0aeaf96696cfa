use vstd::prelude::*;
use vstd::wrapping::u64_specs;
use crate::text::{chars_of, parse_u64_range, spec_parse_u64};

verus! {

/// A 64-bit identifier of a live object (a view, a request, a command name).
#[derive(Clone, Copy, Debug, PartialEq, Eq, Hash, Structural)]
pub struct LiveId(pub u64);

/// Identifies a draw list in the draw-list pool.
#[derive(Clone, Copy, Debug, PartialEq, Eq, Hash, Structural)]
pub struct DrawListId(pub usize);

/// Identifies a draw pass in the pass pool.
#[derive(Clone, Copy, Debug, PartialEq, Eq, Hash, Structural)]
pub struct DrawPassId(pub usize);

/// Identifies a window: its index in the window pool and the generation of that slot.
#[derive(Clone, Copy, Debug, PartialEq, Eq, Hash, Structural)]
pub struct WindowId(pub usize, pub u64);

/// Identifies a texture in the texture pool.
#[derive(Clone, Copy, Debug, PartialEq, Eq, Hash, Structural)]
pub struct TextureId(pub usize);

/// A region of drawn content: nothing, a range of instances in a draw call, or a whole draw list.
#[derive(Clone, Copy, Debug, PartialEq, Eq, Hash, Structural)]
pub enum Area {
    Empty,
    Instance {
        draw_list_id: DrawListId,
        draw_item_id: usize,
        instance_offset: usize,
        instance_count: usize,
        redraw_id: u64,
    },
    DrawList { draw_list_id: DrawListId, redraw_id: u64 },
}

impl Area {
    /// The draw list that holds this area, if any.
    pub open spec fn spec_draw_list_id(&self) -> Option<DrawListId> {
        match *self {
            Area::Empty => None,
            Area::Instance { draw_list_id, .. } => Some(draw_list_id),
            Area::DrawList { draw_list_id, .. } => Some(draw_list_id),
        }
    }

    /// The draw list that holds this area, if any.
    #[verifier::when_used_as_spec(spec_draw_list_id)]
    pub fn draw_list_id(&self) -> (r: Option<DrawListId>)
        ensures
            r == self.spec_draw_list_id(),
    {
        match self {
            Area::Empty => None,
            Area::Instance { draw_list_id, .. } => Some(*draw_list_id),
            Area::DrawList { draw_list_id, .. } => Some(*draw_list_id),
        }
    }

    /// Whether this is the empty area.
    pub fn is_empty(&self) -> (r: bool)
        ensures
            r == (*self is Empty),
    {
        match self {
            Area::Empty => true,
            _ => false,
        }
    }
}

/// Every area that lies in a draw list names that list: an instance range as
/// well as a whole draw list gives the id of the list it was drawn in, and
/// only the empty area names none.
pub proof fn law_area_names_its_draw_list(area: Area)
    ensures
        area.spec_draw_list_id() is None <==> area is Empty,
        area matches Area::Instance { draw_list_id, .. } ==> area.spec_draw_list_id() == Some(draw_list_id),
        area matches Area::DrawList { draw_list_id, .. } ==> area.spec_draw_list_id() == Some(draw_list_id),
{
}

/// The starting state of the name hash.
pub const LIVE_ID_SEED: u64 = 0xd6e8_feb8_6659_fd93;

/// One step of the name hash: folds the character `c` into the state `x`.
pub open spec fn live_id_mix(x: u64, c: char) -> u64 {
    let a = u64_specs::wrapping_add(x, (c as u32) as u64);
    let b = a ^ (a >> 32u64);
    let d = u64_specs::wrapping_mul(b, 0xd6e8_feb8_6659_fd93u64);
    d ^ (d >> 32u64)
}

/// The hash state after folding in all characters of `s`.
pub open spec fn live_id_hash(s: Seq<char>) -> u64
    decreases s.len(),
{
    if s.len() == 0 {
        LIVE_ID_SEED
    } else {
        live_id_mix(live_id_hash(s.drop_last()), s.last())
    }
}

/// The id that names hash to: the hash with its top bit set, which marks
/// ids made from names.
pub open spec fn spec_live_id_from_name(s: Seq<char>) -> LiveId {
    LiveId((live_id_hash(s) & 0x7fff_ffff_ffff_ffffu64) | 0x8000_0000_0000_0000u64)
}

impl LiveId {
    /// The id of a name such as `focus` or `select_all`.
    pub fn from_name(name: &str) -> (r: LiveId)
        ensures
            r == spec_live_id_from_name(name@),
    {
        let chars = chars_of(name);
        let mut x: u64 = LIVE_ID_SEED;
        let mut i: usize = 0;
        while i < chars.len()
            invariant
                i <= chars@.len(),
                chars@ == name@,
                x == live_id_hash(chars@.subrange(0, i as int)),
            decreases chars.len() - i,
        {
            let c = chars[i];
            proof {
                assert(chars@.subrange(0, i as int + 1).drop_last() =~= chars@.subrange(0, i as int));
            }
            let a = x.wrapping_add(c as u32 as u64);
            let b = a ^ (a >> 32u64);
            let d = b.wrapping_mul(0xd6e8_feb8_6659_fd93u64);
            x = d ^ (d >> 32u64);
            i = i + 1;
        }
        assert(chars@.subrange(0, chars@.len() as int) =~= chars@);
        LiveId((x & 0x7fff_ffff_ffff_ffffu64) | 0x8000_0000_0000_0000u64)
    }
}

/// A string that is not a decimal `u64`.
#[derive(Clone, Copy, Debug, PartialEq, Eq, Structural)]
pub struct IdParseError;

/// Identifies a system browser view.
#[derive(Clone, Copy, Debug, PartialEq, Eq, Hash, Structural)]
pub struct SystemBrowserId(pub LiveId);

/// Identifies a native text input view.
#[derive(Clone, Copy, Debug, PartialEq, Eq, Hash, Structural)]
pub struct NativeTextInputId(pub LiveId);

/// Identifies a native label view.
#[derive(Clone, Copy, Debug, PartialEq, Eq, Hash, Structural)]
pub struct NativeLabelId(pub LiveId);

impl From<LiveId> for SystemBrowserId {
    fn from(value: LiveId) -> (r: Self)
        ensures
            r == SystemBrowserId(value),
    {
        SystemBrowserId(value)
    }
}

impl vstd::std_specs::convert::FromSpecImpl<LiveId> for SystemBrowserId {
    open spec fn obeys_from_spec() -> bool {
        true
    }

    open spec fn from_spec(v: LiveId) -> Self {
        SystemBrowserId(v)
    }
}

impl From<LiveId> for NativeTextInputId {
    fn from(value: LiveId) -> (r: Self)
        ensures
            r == NativeTextInputId(value),
    {
        NativeTextInputId(value)
    }
}

impl vstd::std_specs::convert::FromSpecImpl<LiveId> for NativeTextInputId {
    open spec fn obeys_from_spec() -> bool {
        true
    }

    open spec fn from_spec(v: LiveId) -> Self {
        NativeTextInputId(v)
    }
}

impl From<u64> for NativeTextInputId {
    fn from(value: u64) -> (r: Self)
        ensures
            r == NativeTextInputId(LiveId(value)),
    {
        NativeTextInputId(LiveId(value))
    }
}

impl vstd::std_specs::convert::FromSpecImpl<u64> for NativeTextInputId {
    open spec fn obeys_from_spec() -> bool {
        true
    }

    open spec fn from_spec(v: u64) -> Self {
        NativeTextInputId(LiveId(v))
    }
}

impl From<LiveId> for NativeLabelId {
    fn from(value: LiveId) -> (r: Self)
        ensures
            r == NativeLabelId(value),
    {
        NativeLabelId(value)
    }
}

impl vstd::std_specs::convert::FromSpecImpl<LiveId> for NativeLabelId {
    open spec fn obeys_from_spec() -> bool {
        true
    }

    open spec fn from_spec(v: LiveId) -> Self {
        NativeLabelId(v)
    }
}

impl From<u64> for NativeLabelId {
    fn from(value: u64) -> (r: Self)
        ensures
            r == NativeLabelId(LiveId(value)),
    {
        NativeLabelId(LiveId(value))
    }
}

impl vstd::std_specs::convert::FromSpecImpl<u64> for NativeLabelId {
    open spec fn obeys_from_spec() -> bool {
        true
    }

    open spec fn from_spec(v: u64) -> Self {
        NativeLabelId(LiveId(v))
    }
}

impl vstd::std_specs::convert::TryFromSpecImpl<i64> for NativeTextInputId {
    open spec fn obeys_try_from_spec() -> bool {
        true
    }

    open spec fn try_from_spec(v: i64) -> Result<Self, Self::Error> {
        if v >= 0 {
            Ok(NativeTextInputId(LiveId(v as u64)))
        } else {
            Err(arbitrary())
        }
    }
}

impl TryFrom<i64> for NativeTextInputId {
    type Error = core::num::TryFromIntError;

    fn try_from(value: i64) -> (r: Result<Self, Self::Error>)
        ensures
            r is Ok <==> value >= 0,
            r matches Ok(id) ==> id == NativeTextInputId(LiveId(value as u64)),
    {
        match u64::try_from(value) {
            Ok(v) => Ok(NativeTextInputId(LiveId(v))),
            Err(e) => Err(e),
        }
    }
}

impl vstd::std_specs::convert::TryFromSpecImpl<i64> for NativeLabelId {
    open spec fn obeys_try_from_spec() -> bool {
        true
    }

    open spec fn try_from_spec(v: i64) -> Result<Self, Self::Error> {
        if v >= 0 {
            Ok(NativeLabelId(LiveId(v as u64)))
        } else {
            Err(arbitrary())
        }
    }
}

impl TryFrom<i64> for NativeLabelId {
    type Error = core::num::TryFromIntError;

    fn try_from(value: i64) -> (r: Result<Self, Self::Error>)
        ensures
            r is Ok <==> value >= 0,
            r matches Ok(id) ==> id == NativeLabelId(LiveId(value as u64)),
    {
        match u64::try_from(value) {
            Ok(v) => Ok(NativeLabelId(LiveId(v))),
            Err(e) => Err(e),
        }
    }
}

impl NativeTextInputId {
    /// Reads the id from a decimal string, as `str::parse::<u64>` does.
    pub fn parse_decimal(value: &str) -> (r: Result<NativeTextInputId, IdParseError>)
        ensures
            match spec_parse_u64(value@) {
                Some(v) => r == Ok::<NativeTextInputId, IdParseError>(NativeTextInputId(LiveId(v))),
                None => r is Err,
            },
    {
        let chars = chars_of(value);
        match parse_u64_range(&chars, 0, chars.len()) {
            Some(v) => {
                assert(chars@.subrange(0, chars@.len() as int) =~= value@);
                Ok(NativeTextInputId(LiveId(v)))
            },
            None => {
                assert(chars@.subrange(0, chars@.len() as int) =~= value@);
                Err(IdParseError)
            },
        }
    }
}

impl NativeLabelId {
    /// Reads the id from a decimal string, as `str::parse::<u64>` does.
    pub fn parse_decimal(value: &str) -> (r: Result<NativeLabelId, IdParseError>)
        ensures
            match spec_parse_u64(value@) {
                Some(v) => r == Ok::<NativeLabelId, IdParseError>(NativeLabelId(LiveId(v))),
                None => r is Err,
            },
    {
        let chars = chars_of(value);
        match parse_u64_range(&chars, 0, chars.len()) {
            Some(v) => {
                assert(chars@.subrange(0, chars@.len() as int) =~= value@);
                Ok(NativeLabelId(LiveId(v)))
            },
            None => {
                assert(chars@.subrange(0, chars@.len() as int) =~= value@);
                Err(IdParseError)
            },
        }
    }
}

impl core::str::FromStr for NativeTextInputId {
    type Err = IdParseError;

    fn from_str(value: &str) -> (r: Result<Self, Self::Err>)
        ensures
            match spec_parse_u64(value@) {
                Some(v) => r == Ok::<NativeTextInputId, IdParseError>(NativeTextInputId(LiveId(v))),
                None => r is Err,
            },
    {
        NativeTextInputId::parse_decimal(value)
    }
}

impl core::str::FromStr for NativeLabelId {
    type Err = IdParseError;

    fn from_str(value: &str) -> (r: Result<Self, Self::Err>)
        ensures
            match spec_parse_u64(value@) {
                Some(v) => r == Ok::<NativeLabelId, IdParseError>(NativeLabelId(LiveId(v))),
                None => r is Err,
            },
    {
        NativeLabelId::parse_decimal(value)
    }
}

} // verus!
