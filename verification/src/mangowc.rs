//! MangoWC and other compositors based on dwl: layouts, tags, and the state of
//! one output.

use crate::names::texts;
use crate::text::{eq_ignore_ascii_case, joined, same_ignoring_case, str_eq};
use crate::value::{
    int_json, json_as_bool, json_as_u64, json_member, state_of_two, text_json, two_fields,
    value_view, values_view, JsonValue, JsonView, Number, NumberView, StateMap, POSITIVE_ZERO,
};
use vstd::prelude::*;

verus! {

/// A tag mask has 32 bits.
pub const MAX_TAGS: usize = 32;

/// The name of a layout, given its code. What is no known code is its own name.
pub open spec fn layout_name_of(code: Seq<char>) -> Seq<char> {
    if code == "S"@ {
        "Scroller"@
    } else if code == "T"@ {
        "Tile"@
    } else if code == "G"@ {
        "Grid"@
    } else if code == "M"@ {
        "Monocle"@
    } else if code == "K"@ || code == "D"@ {
        "Deck"@
    } else if code == "CT"@ || code == "C"@ {
        "Center Tile"@
    } else if code == "VS"@ {
        "Vertical Scroller"@
    } else if code == "VT"@ {
        "Vertical Tile"@
    } else if code == "VG"@ {
        "Vertical Grid"@
    } else if code == "RT"@ {
        "Right Tile"@
    } else if code == "VK"@ || code == "VD"@ {
        "Vertical Deck"@
    } else if code == "TG"@ {
        "TGMix"@
    } else {
        code
    }
}

/// The name of a layout, given its code.
pub fn layout_code_to_name(code: &str) -> (r: &str)
    ensures
        r@ == layout_name_of(code@),
{
    if str_eq(code, "S") {
        "Scroller"
    } else if str_eq(code, "T") {
        "Tile"
    } else if str_eq(code, "G") {
        "Grid"
    } else if str_eq(code, "M") {
        "Monocle"
    } else if str_eq(code, "K") || str_eq(code, "D") {
        "Deck"
    } else if str_eq(code, "CT") || str_eq(code, "C") {
        "Center Tile"
    } else if str_eq(code, "VS") {
        "Vertical Scroller"
    } else if str_eq(code, "VT") {
        "Vertical Tile"
    } else if str_eq(code, "VG") {
        "Vertical Grid"
    } else if str_eq(code, "RT") {
        "Right Tile"
    } else if str_eq(code, "VK") || str_eq(code, "VD") {
        "Vertical Deck"
    } else if str_eq(code, "TG") {
        "TGMix"
    } else {
        code
    }
}

/// A request names a layout by its code or by its name, in any case, or by a
/// code with the same name.
pub open spec fn layout_fits(code: Seq<char>, requested: Seq<char>) -> bool {
    ||| same_ignoring_case(code, requested)
    ||| same_ignoring_case(layout_name_of(code), requested)
    ||| same_ignoring_case(layout_name_of(code), layout_name_of(requested))
}

/// Whether a request names the layout with that code.
pub fn layout_matches(layout_code: &str, requested: &str) -> (r: bool)
    ensures
        r == layout_fits(layout_code@, requested@),
{
    eq_ignore_ascii_case(layout_code, requested) || eq_ignore_ascii_case(
        layout_code_to_name(layout_code),
        requested,
    ) || eq_ignore_ascii_case(layout_code_to_name(layout_code), layout_code_to_name(requested))
}

/// A value as a 32-bit mask, or why it is none. `name` is what the error calls
/// the value.
pub open spec fn as_mask(value: JsonView, name: Seq<char>) -> Result<u32, Seq<char>> {
    match json_as_u64(value) {
        Some(raw) => if raw <= u32::MAX {
            Ok(raw as u32)
        } else {
            Err(name + " must fit in u32"@)
        },
        None => Err(name + " must be an unsigned integer"@),
    }
}

/// The model of a result whose error is a text.
pub open spec fn text_result<T>(r: Result<T, String>) -> Result<T, Seq<char>> {
    match r {
        Ok(v) => Ok(v),
        Err(e) => Err(e@),
    }
}

fn value_as_u32(value: &JsonValue, name: &str) -> (r: Result<u32, String>)
    ensures
        text_result(r) == as_mask(value@, name@),
{
    match value.as_u64() {
        Some(raw) => if raw <= 0xffff_ffff {
            Ok(raw as u32)
        } else {
            Err(joined(name, " must fit in u32"))
        },
        None => Err(joined(name, " must be an unsigned integer")),
    }
}

/// The member of an object, if it is there.
pub open spec fn member_of(map: Map<Seq<char>, JsonView>, name: Seq<char>) -> Option<JsonView> {
    if map.dom().contains(name) {
        Some(map[name])
    } else {
        None
    }
}

/// The tags to show, and whether to toggle them: a mask, or an object with a
/// mask and an optional `toggle`.
pub open spec fn tags_of(value: JsonView) -> Result<(u32, bool), Seq<char>> {
    if json_as_u64(value) is Some {
        match as_mask(value, "tags"@) {
            Ok(mask) => Ok((mask, false)),
            Err(e) => Err(e),
        }
    } else {
        match value {
            JsonView::Object(map) => {
                let mask = match member_of(map, "tagmask"@) {
                    Some(v) => Some(v),
                    None => member_of(map, "tags"@),
                };
                match mask {
                    None => Err("tags object must include tagmask or tags"@),
                    Some(mask) => match as_mask(mask, "tagmask"@) {
                        Ok(mask) => Ok(
                            (mask, json_as_bool(json_member(value, "toggle"@)) == Some(true)),
                        ),
                        Err(e) => Err(e),
                    },
                }
            },
            _ => Err("tags must be a number or object"@),
        }
    }
}

/// The tags to show, and whether to toggle them.
pub fn parse_tags_value(value: &JsonValue) -> (r: Result<(u32, bool), String>)
    ensures
        text_result(r) == tags_of(value@),
{
    if value.as_u64().is_some() {
        return match value_as_u32(value, "tags") {
            Ok(mask) => Ok((mask, false)),
            Err(e) => Err(e),
        };
    }
    let object = match value.as_object() {
        Some(object) => object,
        None => {
            return Err("tags must be a number or object".to_owned());
        },
    };
    let found = match object.get("tagmask") {
        Some(v) => Some(v),
        None => object.get("tags"),
    };
    let tag_value = match found {
        Some(v) => v,
        None => {
            return Err("tags object must include tagmask or tags".to_owned());
        },
    };
    let toggle = match object.get("toggle") {
        Some(v) => match v.as_bool() {
            Some(b) => b,
            None => false,
        },
        None => false,
    };
    match value_as_u32(tag_value, "tagmask") {
        Ok(mask) => Ok((mask, toggle)),
        Err(e) => Err(e),
    }
}

/// The two masks of the client tags request: which bits to keep, and which to
/// flip afterwards. A plain mask keeps none and flips what is wanted.
pub open spec fn client_tags_of(value: JsonView) -> Result<(u32, u32), Seq<char>> {
    if json_as_u64(value) is Some {
        match as_mask(value, "client_tags"@) {
            Ok(mask) => Ok((0u32, mask)),
            Err(e) => Err(e),
        }
    } else {
        match value {
            JsonView::Object(map) => match member_of(map, "tags"@) {
                Some(tags) => match as_mask(tags, "client_tags.tags"@) {
                    Ok(mask) => Ok((0u32, mask)),
                    Err(e) => Err(e),
                },
                None => match member_of(map, "and_tags"@) {
                    None => Err("client_tags object must include tags or and_tags/xor_tags"@),
                    Some(and_tags) => match as_mask(and_tags, "and_tags"@) {
                        Err(e) => Err(e),
                        Ok(and_tags) => match member_of(map, "xor_tags"@) {
                            None => Err(
                                "client_tags object must include tags or and_tags/xor_tags"@,
                            ),
                            Some(xor_tags) => match as_mask(xor_tags, "xor_tags"@) {
                                Err(e) => Err(e),
                                Ok(xor_tags) => Ok((and_tags, xor_tags)),
                            },
                        },
                    },
                },
            },
            _ => Err("client_tags must be a number or object"@),
        }
    }
}

/// The two masks of the client tags request.
pub fn parse_client_tags_value(value: &JsonValue) -> (r: Result<(u32, u32), String>)
    ensures
        text_result(r) == client_tags_of(value@),
{
    if value.as_u64().is_some() {
        return match value_as_u32(value, "client_tags") {
            Ok(mask) => Ok((0, mask)),
            Err(e) => Err(e),
        };
    }
    let object = match value.as_object() {
        Some(object) => object,
        None => {
            return Err("client_tags must be a number or object".to_owned());
        },
    };
    match object.get("tags") {
        Some(tags) => {
            return match value_as_u32(tags, "client_tags.tags") {
                Ok(mask) => Ok((0, mask)),
                Err(e) => Err(e),
            };
        },
        None => {},
    }
    let and_tags: u32 = match object.get("and_tags") {
        Some(v) => match value_as_u32(v, "and_tags") {
            Ok(mask) => mask,
            Err(e) => {
                return Err(e);
            },
        },
        None => {
            return Err("client_tags object must include tags or and_tags/xor_tags".to_owned());
        },
    };
    match object.get("xor_tags") {
        Some(v) => match value_as_u32(v, "xor_tags") {
            Ok(xor_tags) => Ok((and_tags, xor_tags)),
            Err(e) => Err(e),
        },
        None => Err("client_tags object must include tags or and_tags/xor_tags".to_owned()),
    }
}

/// One tag of an output.
#[derive(Debug, Clone, Copy, PartialEq, Eq, Structural)]
pub struct TagInfo {
    /// 0 for none, 1 for active, 2 for urgent.
    pub state: u32,
    /// The number of clients on the tag.
    pub clients: u32,
    /// Whether the focused client is on the tag.
    pub focused: bool,
}

/// A tag without clients.
pub open spec fn empty_tag() -> TagInfo {
    TagInfo { state: 0, clients: 0, focused: false }
}

impl Default for TagInfo {
    fn default() -> (t: TagInfo)
        ensures
            t == empty_tag(),
    {
        TagInfo { state: 0, clients: 0, focused: false }
    }
}

/// The mask whose bits are the given flags, the first in the lowest bit.
pub open spec fn mask_of(flags: Seq<bool>) -> u32
    decreases flags.len(),
{
    if flags.len() == 0 {
        0
    } else if flags.last() {
        mask_of(flags.drop_last()) | (1u32 << ((flags.len() - 1) as u32))
    } else {
        mask_of(flags.drop_last())
    }
}

/// No flag is set for which a mask has no bit.
pub open spec fn fits_mask(flags: Seq<bool>) -> bool {
    forall|i: int| MAX_TAGS <= i < flags.len() ==> !#[trigger] flags[i]
}

/// Bit `i` of a mask.
pub open spec fn bit(mask: u32, i: u32) -> bool {
    (mask >> i) & 1u32 == 1u32
}

/// The bits of a mask are the flags that it was made of.
pub proof fn mask_bits(flags: Seq<bool>, i: u32)
    requires
        fits_mask(flags),
        i < MAX_TAGS,
    ensures
        bit(mask_of(flags), i) == (i < flags.len() && flags[i as int]),
    decreases flags.len(),
{
    if flags.len() == 0 {
        assert((0u32 >> i) & 1u32 == 0u32) by (bit_vector)
            requires
                i < 32,
        ;
    } else {
        let init = flags.drop_last();
        let rest = mask_of(init);
        let k = (flags.len() - 1) as u32;
        assert forall|j: int| MAX_TAGS <= j < init.len() implies !#[trigger] init[j] by {
            assert(init[j] == flags[j]);
        }
        mask_bits(init, i);
        if flags.last() {
            assert(flags[flags.len() - 1]);
            assert(((rest | (1u32 << k)) >> i) & 1u32 == (if i == k {
                1u32
            } else {
                (rest >> i) & 1u32
            })) by (bit_vector)
                requires
                    i < 32,
                    k < 32,
            ;
        }
    }
}

/// Which tags are shown.
pub open spec fn active_flags(tags: Seq<TagInfo>) -> Seq<bool> {
    Seq::new(tags.len(), |i: int| tags[i].state == 1)
}

/// Which tags have clients.
pub open spec fn occupied_flags(tags: Seq<TagInfo>) -> Seq<bool> {
    Seq::new(tags.len(), |i: int| tags[i].clients > 0)
}

/// Which tags are urgent.
pub open spec fn urgent_flags(tags: Seq<TagInfo>) -> Seq<bool> {
    Seq::new(tags.len(), |i: int| tags[i].state == 2)
}

/// Which tags hold the focused client.
pub open spec fn focused_flags(tags: Seq<TagInfo>) -> Seq<bool> {
    Seq::new(tags.len(), |i: int| tags[i].focused)
}

/// The number of clients on all tags.
pub open spec fn clients_total(tags: Seq<TagInfo>) -> nat
    decreases tags.len(),
{
    if tags.len() == 0 {
        0
    } else {
        clients_total(tags.drop_last()) + tags.last().clients as nat
    }
}

proof fn lemma_total_grows(tags: Seq<TagInfo>, i: int)
    requires
        0 <= i <= tags.len(),
    ensures
        clients_total(tags.take(i)) <= clients_total(tags),
    decreases tags.len() - i,
{
    if i < tags.len() {
        lemma_total_grows(tags, i + 1);
        assert(tags.take(i + 1).drop_last() =~= tags.take(i));
    } else {
        assert(tags.take(i) =~= tags);
    }
}

proof fn lemma_mask_step(flags: Seq<bool>, i: int)
    requires
        0 <= i < flags.len(),
    ensures
        mask_of(flags.take(i + 1)) == (if flags[i] {
            mask_of(flags.take(i)) | (1u32 << (i as u32))
        } else {
            mask_of(flags.take(i))
        }),
{
    assert(flags.take(i + 1).drop_last() =~= flags.take(i));
}

/// The model of an output.
pub struct OutputView {
    pub active_tags: u32,
    pub layout_idx: u32,
    pub title: Seq<char>,
    pub appid: Seq<char>,
    pub tag_info: Seq<TagInfo>,
    pub active: bool,
    pub fullscreen: bool,
    pub floating: bool,
    pub layout_symbol: Seq<char>,
    pub x: i32,
    pub y: i32,
    pub width: i32,
    pub height: i32,
    pub last_layer: Seq<char>,
    pub kb_layout: Seq<char>,
    pub keymode: Seq<char>,
    pub scale_factor: u32,
    pub scale: NumberView,
}

/// What the compositor has told of one output.
#[derive(Debug)]
pub struct OutputState {
    /// The mask of the tags that are shown.
    pub active_tags: u32,
    /// The index of the layout in use.
    pub layout_idx: u32,
    /// The title of the focused client.
    pub title: String,
    /// The application of the focused client.
    pub appid: String,
    /// The tags, in order.
    pub tag_info: Vec<TagInfo>,
    /// Whether the output has the focus.
    pub active: bool,
    pub fullscreen: bool,
    pub floating: bool,
    /// The symbol of the layout in use, where the compositor gives one.
    pub layout_symbol: String,
    pub x: i32,
    pub y: i32,
    pub width: i32,
    pub height: i32,
    pub last_layer: String,
    pub kb_layout: String,
    pub keymode: String,
    /// The scale in hundredths.
    pub scale_factor: u32,
    /// The scale as a number.
    pub scale: Number,
}

impl View for OutputState {
    type V = OutputView;

    open spec fn view(&self) -> OutputView {
        OutputView {
            active_tags: self.active_tags,
            layout_idx: self.layout_idx,
            title: self.title@,
            appid: self.appid@,
            tag_info: self.tag_info@,
            active: self.active,
            fullscreen: self.fullscreen,
            floating: self.floating,
            layout_symbol: self.layout_symbol@,
            x: self.x,
            y: self.y,
            width: self.width,
            height: self.height,
            last_layer: self.last_layer@,
            kb_layout: self.kb_layout@,
            keymode: self.keymode@,
            scale_factor: self.scale_factor,
            scale: self.scale@,
        }
    }
}

/// An output of which nothing is known.
pub open spec fn blank_output() -> OutputView {
    OutputView {
        active_tags: 0,
        layout_idx: 0,
        title: ""@,
        appid: ""@,
        tag_info: Seq::empty(),
        active: false,
        fullscreen: false,
        floating: false,
        layout_symbol: ""@,
        x: 0,
        y: 0,
        width: 0,
        height: 0,
        last_layer: ""@,
        kb_layout: ""@,
        keymode: ""@,
        scale_factor: 0,
        scale: NumberView::Float(POSITIVE_ZERO),
    }
}

fn zero() -> (n: Number)
    ensures
        n@ == NumberView::Float(POSITIVE_ZERO),
{
    match Number::from_float_bits(POSITIVE_ZERO) {
        Some(n) => n,
        None => Number::from_u64(0),
    }
}

impl Default for OutputState {
    fn default() -> (o: OutputState)
        ensures
            o@ == blank_output(),
    {
        let o = OutputState {
            active_tags: 0,
            layout_idx: 0,
            title: "".to_owned(),
            appid: "".to_owned(),
            tag_info: Vec::new(),
            active: false,
            fullscreen: false,
            floating: false,
            layout_symbol: "".to_owned(),
            x: 0,
            y: 0,
            width: 0,
            height: 0,
            last_layer: "".to_owned(),
            kb_layout: "".to_owned(),
            keymode: "".to_owned(),
            scale_factor: 0,
            scale: zero(),
        };
        o
    }
}

impl Clone for OutputState {
    fn clone(&self) -> (r: OutputState)
        ensures
            r@ == self@,
    {
        let mut tag_info: Vec<TagInfo> = Vec::new();
        for i in 0..self.tag_info.len()
            invariant
                tag_info@ == self.tag_info@.take(i as int),
        {
            tag_info.push(self.tag_info[i]);
            assert(self.tag_info@.take(i + 1) =~= self.tag_info@.take(i as int).push(
                self.tag_info@[i as int],
            ));
        }
        assert(tag_info@ =~= self.tag_info@);
        OutputState {
            active_tags: self.active_tags,
            layout_idx: self.layout_idx,
            title: self.title.clone(),
            appid: self.appid.clone(),
            tag_info,
            active: self.active,
            fullscreen: self.fullscreen,
            floating: self.floating,
            layout_symbol: self.layout_symbol.clone(),
            x: self.x,
            y: self.y,
            width: self.width,
            height: self.height,
            last_layer: self.last_layer.clone(),
            kb_layout: self.kb_layout.clone(),
            keymode: self.keymode.clone(),
            scale_factor: self.scale_factor,
            scale: self.scale,
        }
    }
}

/// What is known of all outputs.
#[derive(Debug)]
pub struct GlobalState {
    /// The number of tags.
    pub tag_count: u32,
    /// The codes of the layouts.
    pub layouts: Vec<String>,
}

/// The fields that tell who has the focus.
pub open spec fn focus_fields(o: OutputView, output: Seq<char>) -> Map<Seq<char>, JsonView> {
    two_fields("output"@, text_json(output), "title"@, text_json(o.title)).insert(
        "appid"@,
        text_json(o.appid),
    )
}

/// The label of the layout in use: its symbol, else its code, else nothing.
pub open spec fn layout_label_of(o: OutputView, layouts: Seq<Seq<char>>) -> Seq<char> {
    if o.layout_symbol.len() > 0 {
        o.layout_symbol
    } else if o.layout_idx < layouts.len() {
        layouts[o.layout_idx as int]
    } else {
        ""@
    }
}

/// The geometry of the focused client.
pub open spec fn geometry_of(o: OutputView) -> JsonView {
    JsonView::Object(
        two_fields("x"@, int_json(o.x as int), "y"@, int_json(o.y as int)).insert(
            "width"@,
            int_json(o.width as int),
        ).insert("height"@, int_json(o.height as int)),
    )
}

/// One tag, as it is listed. Tags are counted from one.
pub open spec fn listed_tag(tag: TagInfo, index: int) -> JsonView {
    JsonView::Object(
        two_fields("tag"@, int_json(index + 1), "state"@, int_json(tag.state as int)).insert(
            "clients"@,
            int_json(tag.clients as int),
        ).insert("focused"@, JsonView::Bool(tag.focused)),
    )
}

/// The tags of an output, as they are listed.
pub open spec fn tags_listing(tags: Seq<TagInfo>) -> JsonView {
    JsonView::Array(Seq::new(tags.len(), |i: int| listed_tag(tags[i], i)))
}

/// The mask has a bit for every tag that is shown.
pub open spec fn active_fits(o: OutputView) -> bool {
    fits_mask(active_flags(o.tag_info))
}

impl OutputState {
    /// The fields that tell who has the focus.
    pub fn focus_payload(&self, output: &str) -> (m: StateMap)
        ensures
            m@ == focus_fields(self@, output@),
    {
        let mut m = state_of_two(
            "output",
            JsonValue::text(output),
            "title",
            JsonValue::text(self.title.as_str()),
        );
        m.insert("appid", JsonValue::text(self.appid.as_str()));
        m
    }

    /// The mask of the tags that are marked active.
    pub fn active_mask(&self) -> (mask: u32)
        requires
            fits_mask(active_flags(self@.tag_info)),
        ensures
            mask == mask_of(active_flags(self@.tag_info)),
    {
        let ghost flags = active_flags(self.tag_info@);
        let mut mask: u32 = 0;
        for i in 0..self.tag_info.len()
            invariant
                fits_mask(flags),
                flags == active_flags(self.tag_info@),
                mask == mask_of(flags.take(i as int)),
        {
            proof {
                lemma_mask_step(flags, i as int);
                assert(flags[i as int] ==> i < MAX_TAGS);
            }
            if self.tag_info[i].state == 1 {
                mask = mask | (1u32 << (i as u32));
            }
        }
        assert(flags.take(flags.len() as int) =~= flags);
        mask
    }

    /// The mask of the tags that have clients.
    pub fn occupied_tags(&self) -> (mask: u32)
        requires
            fits_mask(occupied_flags(self@.tag_info)),
        ensures
            mask == mask_of(occupied_flags(self@.tag_info)),
    {
        let ghost flags = occupied_flags(self.tag_info@);
        let mut mask: u32 = 0;
        for i in 0..self.tag_info.len()
            invariant
                fits_mask(flags),
                flags == occupied_flags(self.tag_info@),
                mask == mask_of(flags.take(i as int)),
        {
            proof {
                lemma_mask_step(flags, i as int);
                assert(flags[i as int] ==> i < MAX_TAGS);
            }
            if self.tag_info[i].clients > 0 {
                mask = mask | (1u32 << (i as u32));
            }
        }
        assert(flags.take(flags.len() as int) =~= flags);
        mask
    }

    /// The mask of the tags that are urgent.
    pub fn urgent_tags(&self) -> (mask: u32)
        requires
            fits_mask(urgent_flags(self@.tag_info)),
        ensures
            mask == mask_of(urgent_flags(self@.tag_info)),
    {
        let ghost flags = urgent_flags(self.tag_info@);
        let mut mask: u32 = 0;
        for i in 0..self.tag_info.len()
            invariant
                fits_mask(flags),
                flags == urgent_flags(self.tag_info@),
                mask == mask_of(flags.take(i as int)),
        {
            proof {
                lemma_mask_step(flags, i as int);
                assert(flags[i as int] ==> i < MAX_TAGS);
            }
            if self.tag_info[i].state == 2 {
                mask = mask | (1u32 << (i as u32));
            }
        }
        assert(flags.take(flags.len() as int) =~= flags);
        mask
    }

    /// The mask of the tags that hold the focused client.
    pub fn focused_client_tags(&self) -> (mask: u32)
        requires
            fits_mask(focused_flags(self@.tag_info)),
        ensures
            mask == mask_of(focused_flags(self@.tag_info)),
    {
        let ghost flags = focused_flags(self.tag_info@);
        let mut mask: u32 = 0;
        for i in 0..self.tag_info.len()
            invariant
                fits_mask(flags),
                flags == focused_flags(self.tag_info@),
                mask == mask_of(flags.take(i as int)),
        {
            proof {
                lemma_mask_step(flags, i as int);
                assert(flags[i as int] ==> i < MAX_TAGS);
            }
            if self.tag_info[i].focused {
                mask = mask | (1u32 << (i as u32));
            }
        }
        assert(flags.take(flags.len() as int) =~= flags);
        mask
    }

    /// Whether the mask has a bit for every tag that has clients.
    pub fn occupied_tags_fit(&self) -> (r: bool)
        ensures
            r == fits_mask(occupied_flags(self@.tag_info)),
    {
        let ghost flags = occupied_flags(self.tag_info@);
        let n: usize = self.tag_info.len();
        let mut i: usize = MAX_TAGS;
        while i < n
            invariant
                n == self.tag_info@.len(),
                MAX_TAGS <= i,
                flags == occupied_flags(self.tag_info@),
                forall|j: int| MAX_TAGS <= j < i && j < n ==> !#[trigger] flags[j],
            decreases n - i,
        {
            if self.tag_info[i].clients > 0 {
                assert(flags[i as int]);
                return false;
            }
            i += 1;
        }
        true
    }

    /// Whether the mask has a bit for every tag that is urgent.
    pub fn urgent_tags_fit(&self) -> (r: bool)
        ensures
            r == fits_mask(urgent_flags(self@.tag_info)),
    {
        let ghost flags = urgent_flags(self.tag_info@);
        let n: usize = self.tag_info.len();
        let mut i: usize = MAX_TAGS;
        while i < n
            invariant
                n == self.tag_info@.len(),
                MAX_TAGS <= i,
                flags == urgent_flags(self.tag_info@),
                forall|j: int| MAX_TAGS <= j < i && j < n ==> !#[trigger] flags[j],
            decreases n - i,
        {
            if self.tag_info[i].state == 2 {
                assert(flags[i as int]);
                return false;
            }
            i += 1;
        }
        true
    }

    /// Whether the mask has a bit for every tag that holds the focused client.
    pub fn focused_client_tags_fit(&self) -> (r: bool)
        ensures
            r == fits_mask(focused_flags(self@.tag_info)),
    {
        let ghost flags = focused_flags(self.tag_info@);
        let n: usize = self.tag_info.len();
        let mut i: usize = MAX_TAGS;
        while i < n
            invariant
                n == self.tag_info@.len(),
                MAX_TAGS <= i,
                flags == focused_flags(self.tag_info@),
                forall|j: int| MAX_TAGS <= j < i && j < n ==> !#[trigger] flags[j],
            decreases n - i,
        {
            if self.tag_info[i].focused {
                assert(flags[i as int]);
                return false;
            }
            i += 1;
        }
        true
    }

    /// The number of clients on all tags, if it is one that can be reported.
    pub fn checked_client_count(&self) -> (r: Option<u32>)
        ensures
            match r {
                Some(n) => n == clients_total(self@.tag_info),
                None => clients_total(self@.tag_info) > u32::MAX,
            },
    {
        let ghost tags = self.tag_info@;
        let mut n: u32 = 0;
        for i in 0..self.tag_info.len()
            invariant
                tags == self.tag_info@,
                n == clients_total(tags.take(i as int)),
        {
            proof {
                assert(tags.take(i + 1).drop_last() =~= tags.take(i as int));
                assert(tags.take(tags.len() as int) =~= tags);
                lemma_total_grows(tags, i + 1);
            }
            match n.checked_add(self.tag_info[i].clients) {
                Some(m) => {
                    n = m;
                },
                None => {
                    return None;
                },
            }
        }
        assert(tags.take(tags.len() as int) =~= tags);
        Some(n)
    }

    /// The number of clients on all tags.
    pub fn client_count(&self) -> (n: u32)
        requires
            clients_total(self@.tag_info) <= u32::MAX,
        ensures
            n == clients_total(self@.tag_info),
    {
        match self.checked_client_count() {
            Some(n) => n,
            None => 0,
        }
    }

    /// The label of the layout in use.
    pub fn layout_label<'a>(&'a self, global: &'a GlobalState) -> (r: &'a str)
        ensures
            r@ == layout_label_of(self@, texts(global.layouts@)),
    {
        if !self.layout_symbol.as_str().is_empty() {
            self.layout_symbol.as_str()
        } else if (self.layout_idx as usize) < global.layouts.len() {
            global.layouts[self.layout_idx as usize].as_str()
        } else {
            ""
        }
    }

    /// The name of the layout in use.
    pub fn layout_name(&self, global: &GlobalState) -> (r: String)
        ensures
            r@ == layout_name_of(layout_label_of(self@, texts(global.layouts@))),
    {
        layout_code_to_name(self.layout_label(global)).to_owned()
    }

    /// The geometry of the focused client.
    pub fn geometry_json(&self) -> (r: JsonValue)
        ensures
            r@ == geometry_of(self@),
    {
        broadcast use value_view;

        let mut m = state_of_two(
            "x",
            JsonValue::signed(self.x as i64),
            "y",
            JsonValue::signed(self.y as i64),
        );
        m.insert("width", JsonValue::signed(self.width as i64));
        m.insert("height", JsonValue::signed(self.height as i64));
        JsonValue::Object(m)
    }

    /// The tags, as they are listed.
    pub fn tag_info_json(&self) -> (r: JsonValue)
        ensures
            r@ == tags_listing(self@.tag_info),
    {
        broadcast use value_view;

        let ghost tags = self.tag_info@;
        let mut out: Vec<JsonValue> = Vec::new();
        for i in 0..self.tag_info.len()
            invariant
                tags == self.tag_info@,
                values_view(out@) == Seq::new(i as nat, |j: int| listed_tag(tags[j], j)),
        {
            broadcast use value_view;

            let ghost before = out@;
            let info = self.tag_info[i];
            let mut m = state_of_two(
                "tag",
                JsonValue::unsigned(i as u64 + 1),
                "state",
                JsonValue::unsigned(info.state as u64),
            );
            m.insert("clients", JsonValue::unsigned(info.clients as u64));
            m.insert("focused", JsonValue::boolean(info.focused));
            let entry = JsonValue::Object(m);
            assert(entry@ == listed_tag(tags[i as int], i as int));
            out.push(entry);
            assert(values_view(out@) =~= values_view(before).push(entry@));
            assert(values_view(out@) =~= Seq::new((i + 1) as nat, |j: int| listed_tag(tags[j], j)));
        }
        assert(values_view(out@) =~= tags_listing(tags)->Array_0);
        JsonValue::Array(out)
    }
}

/// A plain mask replaces the tags of the focused client: none of the old bits is
/// kept, and every wanted bit is set.
pub proof fn plain_client_tags_replace(old_tags: u32, wanted: u32)
    ensures
        (old_tags & 0u32) ^ wanted == wanted,
{
    assert((old_tags & 0u32) ^ wanted == wanted) by (bit_vector);
}

/// A request by code or by name finds the layout with that code.
pub proof fn layouts_fit_their_names(code: Seq<char>)
    ensures
        layout_fits(code, code),
        layout_fits(code, layout_name_of(code)),
{
}

/// Each known code stands for the name that people use for it, two codes for one
/// name where the compositors differ. What is no known code is its own name.
pub proof fn codes_stand_for_names(code: Seq<char>)
    ensures
        layout_name_of("S"@) == "Scroller"@,
        layout_name_of("T"@) == "Tile"@,
        layout_name_of("G"@) == "Grid"@,
        layout_name_of("M"@) == "Monocle"@,
        layout_name_of("K"@) == "Deck"@,
        layout_name_of("D"@) == "Deck"@,
        layout_name_of("CT"@) == "Center Tile"@,
        layout_name_of("C"@) == "Center Tile"@,
        layout_name_of("VS"@) == "Vertical Scroller"@,
        layout_name_of("VT"@) == "Vertical Tile"@,
        layout_name_of("VG"@) == "Vertical Grid"@,
        layout_name_of("RT"@) == "Right Tile"@,
        layout_name_of("VK"@) == "Vertical Deck"@,
        layout_name_of("VD"@) == "Vertical Deck"@,
        layout_name_of("TG"@) == "TGMix"@,
        code != "S"@ && code != "T"@ && code != "G"@ && code != "M"@ && code != "K"@
            && code != "D"@ && code != "CT"@ && code != "C"@ && code != "VS"@ && code != "VT"@
            && code != "VG"@ && code != "RT"@ && code != "VK"@ && code != "VD"@ && code != "TG"@
            ==> layout_name_of(code) == code,
{
    reveal_strlit("S");
    reveal_strlit("T");
    reveal_strlit("G");
    reveal_strlit("M");
    reveal_strlit("K");
    reveal_strlit("D");
    reveal_strlit("CT");
    reveal_strlit("C");
    reveal_strlit("VS");
    reveal_strlit("VT");
    reveal_strlit("VG");
    reveal_strlit("RT");
    reveal_strlit("VK");
    reveal_strlit("VD");
    reveal_strlit("TG");
    assert("S"@.len() == 1 && "S"@[0] == 'S');
    assert("T"@.len() == 1 && "T"@[0] == 'T');
    assert("G"@.len() == 1 && "G"@[0] == 'G');
    assert("M"@.len() == 1 && "M"@[0] == 'M');
    assert("K"@.len() == 1 && "K"@[0] == 'K');
    assert("D"@.len() == 1 && "D"@[0] == 'D');
    assert("CT"@.len() == 2 && "CT"@[0] == 'C');
    assert("C"@.len() == 1 && "C"@[0] == 'C');
    assert("VS"@.len() == 2 && "VS"@[0] == 'V' && "VS"@[1] == 'S');
    assert("VT"@.len() == 2 && "VT"@[0] == 'V' && "VT"@[1] == 'T');
    assert("VG"@.len() == 2 && "VG"@[0] == 'V' && "VG"@[1] == 'G');
    assert("RT"@.len() == 2 && "RT"@[0] == 'R');
    assert("VK"@.len() == 2 && "VK"@[0] == 'V' && "VK"@[1] == 'K');
    assert("VD"@.len() == 2 && "VD"@[0] == 'V' && "VD"@[1] == 'D');
    assert("TG"@.len() == 2 && "TG"@[0] == 'T');
}

/// A layout is found by its code and by its name in any case, and by another code
/// of the same name. By nothing else it is found.
pub proof fn layouts_are_requested_by_code_or_name(code: Seq<char>, requested: Seq<char>)
    ensures
        same_ignoring_case(code, requested) ==> layout_fits(code, requested),
        same_ignoring_case(layout_name_of(code), requested) ==> layout_fits(code, requested),
        layout_name_of(requested) == layout_name_of(code) ==> layout_fits(code, requested),
        same_ignoring_case(layout_name_of(code), layout_name_of(requested)) ==> layout_fits(
            code,
            requested,
        ),
        layout_fits(code, requested) && !same_ignoring_case(code, requested)
            && !same_ignoring_case(layout_name_of(code), requested) ==> same_ignoring_case(
            layout_name_of(code),
            layout_name_of(requested),
        ),
{
}

/// A mask tells of each tag whether it is shown, has clients, is urgent or holds
/// the focused client.
pub proof fn masks_tell_of_tags(tags: Seq<TagInfo>, i: u32)
    requires
        i < 32,
    ensures
        fits_mask(active_flags(tags)) ==> ((mask_of(active_flags(tags)) >> i) & 1u32 == 1u32 <==> i
            < tags.len() && tags[i as int].state == 1),
        fits_mask(occupied_flags(tags)) ==> ((mask_of(occupied_flags(tags)) >> i) & 1u32 == 1u32
            <==> i < tags.len() && tags[i as int].clients != 0),
        fits_mask(urgent_flags(tags)) ==> ((mask_of(urgent_flags(tags)) >> i) & 1u32 == 1u32 <==> i
            < tags.len() && tags[i as int].state == 2),
        fits_mask(focused_flags(tags)) ==> ((mask_of(focused_flags(tags)) >> i) & 1u32 == 1u32
            <==> i < tags.len() && tags[i as int].focused),
{
    if fits_mask(active_flags(tags)) {
        mask_bits(active_flags(tags), i);
    }
    if fits_mask(occupied_flags(tags)) {
        mask_bits(occupied_flags(tags), i);
    }
    if fits_mask(urgent_flags(tags)) {
        mask_bits(urgent_flags(tags), i);
    }
    if fits_mask(focused_flags(tags)) {
        mask_bits(focused_flags(tags), i);
    }
}

/// A mask can tell of tags exactly if none of those that it would have to set lies
/// beyond its 32 bits.
pub proof fn masks_have_bits(tags: Seq<TagInfo>)
    ensures
        tags.len() <= 32 ==> fits_mask(active_flags(tags)) && fits_mask(occupied_flags(tags))
            && fits_mask(urgent_flags(tags)) && fits_mask(focused_flags(tags)),
        fits_mask(active_flags(tags)) <==> forall|i: int|
            32 <= i < tags.len() ==> (#[trigger] tags[i]).state != 1,
        fits_mask(occupied_flags(tags)) <==> forall|i: int|
            32 <= i < tags.len() ==> (#[trigger] tags[i]).clients == 0,
        fits_mask(urgent_flags(tags)) <==> forall|i: int|
            32 <= i < tags.len() ==> (#[trigger] tags[i]).state != 2,
        fits_mask(focused_flags(tags)) <==> forall|i: int|
            32 <= i < tags.len() ==> !(#[trigger] tags[i]).focused,
{
    let (a, o, u, f) = (
        active_flags(tags),
        occupied_flags(tags),
        urgent_flags(tags),
        focused_flags(tags),
    );
    assert forall|i: int| 32 <= i < tags.len() implies {
        &&& a[i] == ((#[trigger] tags[i]).state == 1)
        &&& o[i] == (tags[i].clients > 0)
        &&& u[i] == (tags[i].state == 2)
        &&& f[i] == tags[i].focused
    } by {}
}

/// The clients of all tags are counted, each tag with its own.
pub proof fn clients_are_counted(tags: Seq<TagInfo>, tag: TagInfo, more: Seq<TagInfo>)
    ensures
        clients_total(Seq::<TagInfo>::empty()) == 0,
        clients_total(tags.push(tag)) == clients_total(tags) + tag.clients,
        clients_total(tags + more) == clients_total(tags) + clients_total(more),
    decreases more.len(),
{
    assert(tags.push(tag).drop_last() =~= tags);
    if more.len() == 0 {
        assert(tags + more =~= tags);
    } else {
        clients_are_counted(tags, tag, more.drop_last());
        assert((tags + more).drop_last() =~= tags + more.drop_last());
    }
}

/// Of an output that nothing was told about nothing is set.
pub proof fn blank_outputs_are_blank()
    ensures
        blank_output().active_tags == 0,
        blank_output().layout_idx == 0,
        blank_output().tag_info.len() == 0,
        !blank_output().active && !blank_output().fullscreen && !blank_output().floating,
        blank_output().title.len() == 0 && blank_output().appid.len() == 0,
        blank_output().layout_symbol.len() == 0 && blank_output().last_layer.len() == 0,
        blank_output().kb_layout.len() == 0 && blank_output().keymode.len() == 0,
        blank_output().x == 0 && blank_output().y == 0,
        blank_output().width == 0 && blank_output().height == 0,
        blank_output().scale_factor == 0,
        blank_output().scale == NumberView::Float(0),
        empty_tag().state == 0 && empty_tag().clients == 0 && !empty_tag().focused,
{
    reveal_strlit("");
}

/// The layout in use is called by its symbol where there is one, else by the code
/// at its index, and by nothing where there is no such code.
pub proof fn layouts_in_use(o: OutputView, layouts: Seq<Seq<char>>)
    ensures
        o.layout_symbol.len() > 0 ==> layout_label_of(o, layouts) == o.layout_symbol,
        o.layout_symbol.len() == 0 && o.layout_idx < layouts.len() ==> layout_label_of(o, layouts)
            == layouts[o.layout_idx as int],
        o.layout_symbol.len() == 0 && o.layout_idx >= layouts.len() ==> layout_label_of(
            o,
            layouts,
        ).len() == 0,
{
    reveal_strlit("");
}

/// What is told of the focus, of a window's place and of a tag has these members
/// with these values, and no others. Tags are counted from one.
pub proof fn members_that_are_told(o: OutputView, output: Seq<char>, tags: Seq<TagInfo>, i: int)
    requires
        0 <= i < tags.len(),
    ensures
        focus_fields(o, output) == map![
            "output"@ => JsonView::Str(output),
            "title"@ => JsonView::Str(o.title),
            "appid"@ => JsonView::Str(o.appid),
        ],
        geometry_of(o) == JsonView::Object(
            map![
                "x"@ => JsonView::Number(NumberView::Int(o.x as int)),
                "y"@ => JsonView::Number(NumberView::Int(o.y as int)),
                "width"@ => JsonView::Number(NumberView::Int(o.width as int)),
                "height"@ => JsonView::Number(NumberView::Int(o.height as int)),
            ],
        ),
        tags_listing(tags) is Array,
        tags_listing(tags)->Array_0.len() == tags.len(),
        tags_listing(tags)->Array_0[i] == JsonView::Object(
            map![
                "tag"@ => JsonView::Number(NumberView::Int(i + 1)),
                "state"@ => JsonView::Number(NumberView::Int(tags[i].state as int)),
                "clients"@ => JsonView::Number(NumberView::Int(tags[i].clients as int)),
                "focused"@ => JsonView::Bool(tags[i].focused),
            ],
        ),
{
}

} // verus!
