//! What the editor knows of a node: its kind, how it resizes its inputs, how a mix
//! node mixes, its processing state, and the names shown for each.
use crate::graph::SlotId;
use crate::text::{numbered_lines, numbered_list};
use vstd::prelude::*;

verus! {

/// The kind of a node.
#[derive(Clone, Copy, Debug, PartialEq, Eq, Hash, Structural)]
pub enum NodeKind {
    InputGray,
    InputRgba,
    OutputGray,
    OutputRgba,
    Graph,
    Image,
    Embed,
    Write,
    Value,
    Mix,
    HeightToNormal,
    SeparateRgba,
    CombineRgba,
}

/// The size of an image, in pixels.
#[derive(Clone, Copy, Debug, PartialEq, Eq, Hash, Structural)]
pub struct Size {
    pub width: u32,
    pub height: u32,
}

/// How a node picks the size that its inputs are resized to.
#[derive(Clone, Copy, Debug, PartialEq, Eq, Hash, Structural)]
pub enum ResizePolicy {
    MostPixels,
    LeastPixels,
    LargestAxes,
    SmallestAxes,
    SpecificSlot(SlotId),
    SpecificSize(Size),
}

/// How a node resizes its inputs.
#[derive(Clone, Copy, Debug, PartialEq, Eq, Hash, Structural)]
pub enum ResizeFilter {
    Nearest,
    Triangle,
}

/// How a mix node combines its inputs.
#[derive(Clone, Copy, Debug, PartialEq, Eq, Hash, Structural)]
pub enum MixType {
    Add,
    Subtract,
    Multiply,
    Divide,
}

/// The processing state of a node.
#[derive(Clone, Copy, Debug, PartialEq, Eq, Hash, Structural)]
pub enum NodeState {
    Clean,
    Dirty,
    Requested,
    Prioritised,
    Processing,
    ProcessingDirty,
}

/// The state of the thumbnail of a node.
#[derive(Clone, Copy, Debug, PartialEq, Eq, Hash, Structural)]
pub enum ThumbnailState {
    Waiting,
    Missing,
    Processing,
    Present,
}

/// The entries of the list of resize policies, in the order they are numbered.
pub open spec fn resize_policy_entries() -> Seq<Seq<char>> {
    seq![
        "MostPixels"@,
        "LeastPixels"@,
        "LargestAxes"@,
        "SmallestAxes"@,
        "SpecificSlot"@,
        "SpecificSize"@,
    ]
}

/// The heading and entries of the list of resize policies.
pub open spec fn resize_policy_list() -> Seq<char> {
    "## Resize policy\n"@ + numbered_lines(resize_policy_entries())
}

/// The entries of the list of resize filters, in the order they are numbered.
pub open spec fn resize_filter_entries() -> Seq<Seq<char>> {
    seq!["Nearest"@, "Triangle"@]
}

/// The heading and entries of the list of resize filters.
pub open spec fn resize_filter_list() -> Seq<char> {
    "## Resize filter\n"@ + numbered_lines(resize_filter_entries())
}

/// The entries of the list of mix types, in the order they are numbered.
pub open spec fn mix_type_entries() -> Seq<Seq<char>> {
    seq!["Add"@, "Subtract"@, "Multiply"@, "Divide"@]
}

/// The heading and entries of the list of mix types.
pub open spec fn mix_type_list() -> Seq<char> {
    "## Mix Type\n"@ + numbered_lines(mix_type_entries())
}

/// The name of a resize policy, as written in its list.
pub open spec fn policy_name(p: ResizePolicy) -> Seq<char> {
    match p {
        ResizePolicy::MostPixels => "MostPixels"@,
        ResizePolicy::LeastPixels => "LeastPixels"@,
        ResizePolicy::LargestAxes => "LargestAxes"@,
        ResizePolicy::SmallestAxes => "SmallestAxes"@,
        ResizePolicy::SpecificSlot(_) => "SpecificSlot"@,
        ResizePolicy::SpecificSize(_) => "SpecificSize"@,
    }
}

/// The name of a resize filter, as written in its list.
pub open spec fn filter_name(f: ResizeFilter) -> Seq<char> {
    match f {
        ResizeFilter::Nearest => "Nearest"@,
        ResizeFilter::Triangle => "Triangle"@,
    }
}

/// The name of a mix type, as written in its list.
pub open spec fn mix_name(m: MixType) -> Seq<char> {
    match m {
        MixType::Add => "Add"@,
        MixType::Subtract => "Subtract"@,
        MixType::Multiply => "Multiply"@,
        MixType::Divide => "Divide"@,
    }
}

/// The resize policy that choice `i` of the list picks: 1 to 5 pick the first five
/// entries, and 0 and 6 a specific size of 128 by 128; beyond 6 there is none.
pub open spec fn spec_choose_resize_policy(i: usize) -> Option<ResizePolicy> {
    if i <= 6 {
        Some(
            if i == 1 {
                ResizePolicy::MostPixels
            } else if i == 2 {
                ResizePolicy::LeastPixels
            } else if i == 3 {
                ResizePolicy::LargestAxes
            } else if i == 4 {
                ResizePolicy::SmallestAxes
            } else if i == 5 {
                ResizePolicy::SpecificSlot(SlotId(0))
            } else {
                ResizePolicy::SpecificSize(Size { width: 128, height: 128 })
            },
        )
    } else {
        None
    }
}

fn list_of(e0: &'static str, e1: &'static str) -> (v: Vec<&'static str>)
    ensures
        v@ == seq![e0, e1],
{
    let mut v: Vec<&'static str> = Vec::new();
    v.push(e0);
    v.push(e1);
    assert(v@ =~= seq![e0, e1]);
    v
}

impl ResizePolicy {
    /// The list of resize policies, numbered from one.
    pub fn list() -> (s: String)
        ensures
            s@ == resize_policy_list(),
    {
        let mut entries = list_of("MostPixels", "LeastPixels");
        entries.push("LargestAxes");
        entries.push("SmallestAxes");
        entries.push("SpecificSlot");
        entries.push("SpecificSize");
        let s = numbered_list("## Resize policy\n", &entries);
        assert(entries@.map_values(|e: &str| e@) =~= seq![
            "MostPixels"@,
            "LeastPixels"@,
            "LargestAxes"@,
            "SmallestAxes"@,
            "SpecificSlot"@,
            "SpecificSize"@,
        ]);
        s
    }

    /// The resize policy that choice `i` of the list picks.
    pub fn choose_entry(i: usize) -> (r: Option<ResizePolicy>)
        ensures
            r == spec_choose_resize_policy(i),
    {
        if i <= 6 {
            Some(
                match i {
                    1 => ResizePolicy::MostPixels,
                    2 => ResizePolicy::LeastPixels,
                    3 => ResizePolicy::LargestAxes,
                    4 => ResizePolicy::SmallestAxes,
                    5 => ResizePolicy::SpecificSlot(SlotId(0)),
                    _ => ResizePolicy::SpecificSize(Size { width: 128, height: 128 }),
                },
            )
        } else {
            None
        }
    }
}

impl ResizeFilter {
    /// The list of resize filters, numbered from one.
    pub fn list() -> (s: String)
        ensures
            s@ == resize_filter_list(),
    {
        let entries = list_of("Nearest", "Triangle");
        let s = numbered_list("## Resize filter\n", &entries);
        assert(entries@.map_values(|e: &str| e@) =~= seq!["Nearest"@, "Triangle"@]);
        s
    }

    /// The resize filter that choice `i` of the list picks: 1 picks the first, 0 and
    /// 2 the second; beyond 2 there is none.
    pub open spec fn spec_choose(i: usize) -> Option<ResizeFilter> {
        if i <= 2 {
            Some(
                if i == 1 {
                    ResizeFilter::Nearest
                } else {
                    ResizeFilter::Triangle
                },
            )
        } else {
            None
        }
    }

    /// The resize filter that choice `i` of the list picks (see [`Self::spec_choose`]).
    pub fn choose_entry(i: usize) -> (r: Option<ResizeFilter>)
        ensures
            r == Self::spec_choose(i),
    {
        if i <= 2 {
            Some(
                match i {
                    1 => ResizeFilter::Nearest,
                    _ => ResizeFilter::Triangle,
                },
            )
        } else {
            None
        }
    }
}

impl MixType {
    /// The list of mix types, numbered from one.
    pub fn list() -> (s: String)
        ensures
            s@ == mix_type_list(),
    {
        let mut entries = list_of("Add", "Subtract");
        entries.push("Multiply");
        entries.push("Divide");
        let s = numbered_list("## Mix Type\n", &entries);
        assert(entries@.map_values(|e: &str| e@) =~= seq!["Add"@, "Subtract"@, "Multiply"@, "Divide"@]);
        s
    }

    /// The mix type that choice `i` of the list picks: 1 to 3 pick the first three,
    /// 0 and 4 the last; beyond 4 there is none.
    pub open spec fn spec_choose(i: usize) -> Option<MixType> {
        if i <= 4 {
            Some(
                if i == 1 {
                    MixType::Add
                } else if i == 2 {
                    MixType::Subtract
                } else if i == 3 {
                    MixType::Multiply
                } else {
                    MixType::Divide
                },
            )
        } else {
            None
        }
    }

    /// The mix type that choice `i` of the list picks (see [`Self::spec_choose`]).
    pub fn choose_entry(i: usize) -> (r: Option<MixType>)
        ensures
            r == Self::spec_choose(i),
    {
        if i <= 4 {
            Some(
                match i {
                    1 => MixType::Add,
                    2 => MixType::Subtract,
                    3 => MixType::Multiply,
                    _ => MixType::Divide,
                },
            )
        } else {
            None
        }
    }
}

impl NodeKind {
    pub open spec fn spec_type_name(self) -> Seq<char> {
        match self {
            NodeKind::InputGray => "InputGray"@,
            NodeKind::InputRgba => "InputRgba"@,
            NodeKind::OutputGray => "OutputGray"@,
            NodeKind::OutputRgba => "OutputRgba"@,
            NodeKind::Graph => "Graph"@,
            NodeKind::Image => "Image"@,
            NodeKind::Embed => "Embedded Image"@,
            NodeKind::Write => "Write"@,
            NodeKind::Value => "Value"@,
            NodeKind::Mix => "Mix"@,
            NodeKind::HeightToNormal => "Height To Normal"@,
            NodeKind::SeparateRgba => "Separate RGBA"@,
            NodeKind::CombineRgba => "Combine RGBA"@,
        }
    }

    /// The name of the kind, as the node editor shows it.
    pub fn node_type_name(&self) -> (s: &'static str)
        ensures
            s@ == self.spec_type_name(),
    {
        match self {
            NodeKind::InputGray => "InputGray",
            NodeKind::InputRgba => "InputRgba",
            NodeKind::OutputGray => "OutputGray",
            NodeKind::OutputRgba => "OutputRgba",
            NodeKind::Graph => "Graph",
            NodeKind::Image => "Image",
            NodeKind::Embed => "Embedded Image",
            NodeKind::Write => "Write",
            NodeKind::Value => "Value",
            NodeKind::Mix => "Mix",
            NodeKind::HeightToNormal => "Height To Normal",
            NodeKind::SeparateRgba => "Separate RGBA",
            NodeKind::CombineRgba => "Combine RGBA",
        }
    }

    pub open spec fn spec_title(self) -> Seq<char> {
        match self {
            NodeKind::CombineRgba => "Combine"@,
            NodeKind::Image => "Image"@,
            NodeKind::OutputRgba => "Output"@,
            NodeKind::SeparateRgba => "Separate"@,
            NodeKind::Value => "Value"@,
            _ => "Unnamed"@,
        }
    }

    /// The title shown on a node of this kind in the workspace.
    pub fn title(&self) -> (s: String)
        ensures
            s@ == self.spec_title(),
    {
        let t = match self {
            NodeKind::CombineRgba => "Combine",
            NodeKind::Image => "Image",
            NodeKind::OutputRgba => "Output",
            NodeKind::SeparateRgba => "Separate",
            NodeKind::Value => "Value",
            _ => "Unnamed",
        };
        String::from_str(t)
    }
}

impl NodeState {
    pub open spec fn spec_image_path(self) -> Seq<char> {
        match self {
            NodeState::Clean => "image/node_states/clean.png"@,
            NodeState::Dirty => "image/node_states/dirty.png"@,
            NodeState::Requested => "image/node_states/requested.png"@,
            NodeState::Prioritised => "image/node_states/prioritised.png"@,
            NodeState::Processing => "image/node_states/processing.png"@,
            NodeState::ProcessingDirty => "image/node_states/processing_dirty.png"@,
        }
    }

    /// The image that shows this state on a node.
    pub fn image_path(&self) -> (s: &'static str)
        ensures
            s@ == self.spec_image_path(),
    {
        match self {
            NodeState::Clean => "image/node_states/clean.png",
            NodeState::Dirty => "image/node_states/dirty.png",
            NodeState::Requested => "image/node_states/requested.png",
            NodeState::Prioritised => "image/node_states/prioritised.png",
            NodeState::Processing => "image/node_states/processing.png",
            NodeState::ProcessingDirty => "image/node_states/processing_dirty.png",
        }
    }
}

impl ThumbnailState {
    /// The state of a thumbnail when its node appears.
    pub fn default_state() -> (t: ThumbnailState)
        ensures
            t == ThumbnailState::Waiting,
    {
        ThumbnailState::Waiting
    }

    pub open spec fn spec_image_path(self) -> Seq<char> {
        match self {
            ThumbnailState::Waiting => "image/thumbnail_states/waiting.png"@,
            ThumbnailState::Missing => "image/thumbnail_states/missing.png"@,
            ThumbnailState::Processing => "image/thumbnail_states/processing.png"@,
            ThumbnailState::Present => "image/thumbnail_states/present.png"@,
        }
    }

    /// The image that shows this state on a thumbnail.
    pub fn image_path(&self) -> (s: &'static str)
        ensures
            s@ == self.spec_image_path(),
    {
        match self {
            ThumbnailState::Waiting => "image/thumbnail_states/waiting.png",
            ThumbnailState::Missing => "image/thumbnail_states/missing.png",
            ThumbnailState::Processing => "image/thumbnail_states/processing.png",
            ThumbnailState::Present => "image/thumbnail_states/present.png",
        }
    }
}

/// The thumbnail state after the graph reports that a node's state changed from
/// `shown` (what the workspace shows) to `actual`: a node that becomes clean needs a
/// new thumbnail; one that was clean and changes must wait for its data.
pub fn thumbnail_after_state_change(shown: NodeState, actual: NodeState,
    thumbnail: ThumbnailState) -> (t:
    ThumbnailState)
    ensures
        t == (if actual == NodeState::Clean {
            ThumbnailState::Missing
        } else if shown == NodeState::Clean {
            ThumbnailState::Waiting
        } else {
            thumbnail
        }),
{
    let mut t = thumbnail;
    if shown == NodeState::Clean {
        t = ThumbnailState::Waiting;
    }
    if actual == NodeState::Clean {
        t = ThumbnailState::Missing;
    }
    t
}

/// The thumbnail state after a thumbnail is asked for: a missing thumbnail is being
/// processed once a processor for it was made; any other state stays.
pub fn thumbnail_requested(state: ThumbnailState, processor_made: bool) -> (t: ThumbnailState)
    ensures
        t == (if state == ThumbnailState::Missing && processor_made {
            ThumbnailState::Processing
        } else {
            state
        }),
{
    if state == ThumbnailState::Missing && processor_made {
        ThumbnailState::Processing
    } else {
        state
    }
}

/// What the processor of a thumbnail answers when asked for its image.
#[derive(Clone, Copy, Debug, PartialEq, Eq, Structural)]
pub enum ThumbnailPoll {
    /// The image is ready.
    Ready,
    /// The node has no output, so there is no image; a black one is shown.
    NoOutput,
    /// The image is not ready yet.
    NotReady,
}

/// The thumbnail state after its processor answered: present once there is something
/// to show, whether the image or black; otherwise it stays. `None` when nothing
/// changes, and the processor is kept.
pub fn thumbnail_polled(poll: ThumbnailPoll) -> (t: Option<ThumbnailState>)
    ensures
        t == (if poll == ThumbnailPoll::NotReady {
            None
        } else {
            Some(ThumbnailState::Present)
        }),
{
    if poll == ThumbnailPoll::NotReady {
        None
    } else {
        Some(ThumbnailState::Present)
    }
}

/// How a node is highlighted in the workspace.
#[derive(Clone, Copy, Debug, PartialEq, Eq, Structural)]
pub enum Highlight {
    Active,
    Selected,
    Hovered,
    Plain,
}

/// How a node is highlighted: being active shows over being selected, which shows
/// over being hovered.
pub fn node_highlight(active: bool, selected: bool, hovered: bool) -> (h: Highlight)
    ensures
        h == (if active {
            Highlight::Active
        } else if selected {
            Highlight::Selected
        } else if hovered {
            Highlight::Hovered
        } else {
            Highlight::Plain
        }),
{
    if active {
        Highlight::Active
    } else if selected {
        Highlight::Selected
    } else if hovered {
        Highlight::Hovered
    } else {
        Highlight::Plain
    }
}

/// How a slot is highlighted: being selected shows over being hovered.
pub fn slot_highlight(selected: bool, hovered: bool) -> (h: Highlight)
    ensures
        h == (if selected {
            Highlight::Selected
        } else if hovered {
            Highlight::Hovered
        } else {
            Highlight::Plain
        }),
{
    if selected {
        Highlight::Selected
    } else if hovered {
        Highlight::Hovered
    } else {
        Highlight::Plain
    }
}

/// Choosing entry `k` of the shown list of resize policies, numbered from one, picks
/// the policy named by that entry; choosing past the end picks nothing.
pub proof fn lemma_resize_policy_choice_matches_list(k: usize)
    ensures
        1 <= k <= resize_policy_entries().len() ==> (spec_choose_resize_policy(k) matches Some(p)
            && policy_name(p) == resize_policy_entries()[k - 1]),
        k > resize_policy_entries().len() ==> spec_choose_resize_policy(k) is None,
{
}

/// Choosing entry `k` of the shown list of resize filters, numbered from one, picks
/// the filter named by that entry; choosing past the end picks nothing.
pub proof fn lemma_resize_filter_choice_matches_list(k: usize)
    ensures
        1 <= k <= resize_filter_entries().len() ==> (ResizeFilter::spec_choose(k) matches Some(f)
            && filter_name(f) == resize_filter_entries()[k - 1]),
        k > resize_filter_entries().len() ==> ResizeFilter::spec_choose(k) is None,
{
}

/// Choosing entry `k` of the shown list of mix types, numbered from one, picks the mix
/// type named by that entry; choosing past the end picks nothing.
pub proof fn lemma_mix_type_choice_matches_list(k: usize)
    ensures
        1 <= k <= mix_type_entries().len() ==> (MixType::spec_choose(k) matches Some(m)
            && mix_name(m) == mix_type_entries()[k - 1]),
        k > mix_type_entries().len() ==> MixType::spec_choose(k) is None,
{
}

} // verus!
