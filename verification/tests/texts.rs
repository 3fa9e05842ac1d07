use kanter::export::{rgba_image, ExportError};
use kanter::instructions::{lex_before, same_line, InstructId, Instructions, ToolList};
use kanter::node::{
    node_highlight, slot_highlight, thumbnail_after_state_change, Highlight, NodeKind, NodeState,
    thumbnail_polled, thumbnail_requested, Size, ThumbnailPoll, ThumbnailState,
};
use kanter::text::{append_decimal, numbered_list};
use kanter::tool::ToolState;

fn chars(s: &str) -> Vec<char> {
    s.chars().collect()
}

#[test]
fn decimals() {
    let mut s = String::from("n=");
    append_decimal(&mut s, 0);
    assert_eq!(s, "n=0");
    let mut t = String::new();
    append_decimal(&mut t, 1234567);
    assert_eq!(t, "1234567");
}

#[test]
fn numbered_lists() {
    assert_eq!(numbered_list("# H\n", &vec!["a", "b"]), "# H\n1: a\n2: b\n");
    assert_eq!(numbered_list("", &vec![]), "");
}

#[test]
fn dictionary_order() {
    assert!(lex_before(&chars("G: Move"), &chars("Shift A: Add node")));
    assert!(!lex_before(&chars("b"), &chars("a")));
    assert!(lex_before(&chars("ab"), &chars("abc")));
    assert!(!lex_before(&chars("abc"), &chars("ab")));
    assert!(!lex_before(&chars("x"), &chars("x")));
    assert!(lex_before(&chars(""), &chars("a")));
    assert!(same_line(&chars("x"), &chars("x")));
    assert!(!same_line(&chars("x"), &chars("xy")));
}

#[test]
fn tool_list_keeps_order_without_repeats() {
    let mut list = ToolList::new();
    list.insert(chars("X: Delete node"));
    list.insert(chars("G: Move"));
    list.insert(chars("Shift A: Add node"));
    list.insert(chars("G: Move"));
    assert_eq!(
        list.text(),
        chars("G: Move\nShift A: Add node\nX: Delete node\n")
    );
    assert!(ToolList::new().text().is_empty());
}

#[test]
fn instruction_sections() {
    let mut list = ToolList::new();
    list.insert(chars("G: Move"));
    let mut i = Instructions::new();
    assert_eq!(i.sections(ToolState::Add, &list), (Vec::new(), Vec::new()));
    i.insert(InstructId::Tool, chars("LMB: Confirm\n"));
    i.insert(InstructId::FirstPerson, chars("On"));
    assert_eq!(i.sections(ToolState::Add, &list), (chars("On"), chars("LMB: Confirm\n")));
    assert_eq!(i.sections(ToolState::Idle, &list), (chars("On"), chars("G: Move\n")));
    i.insert(InstructId::Tool, chars("other"));
    assert_eq!(i.sections(ToolState::Add, &list).1, chars("other"));
}

#[test]
fn node_names() {
    assert_eq!(NodeKind::Embed.node_type_name(), "Embedded Image");
    assert_eq!(NodeKind::HeightToNormal.node_type_name(), "Height To Normal");
    assert_eq!(NodeKind::CombineRgba.node_type_name(), "Combine RGBA");
    assert_eq!(NodeKind::CombineRgba.title(), "Combine");
    assert_eq!(NodeKind::Mix.title(), "Unnamed");
    assert_eq!(NodeKind::OutputRgba.title(), "Output");
}

#[test]
fn state_images() {
    assert_eq!(NodeState::Clean.image_path(), "image/node_states/clean.png");
    assert_eq!(NodeState::ProcessingDirty.image_path(), "image/node_states/processing_dirty.png");
    assert_eq!(ThumbnailState::Present.image_path(), "image/thumbnail_states/present.png");
    assert_eq!(ThumbnailState::default_state(), ThumbnailState::Waiting);
}

#[test]
fn thumbnails_follow_node_state() {
    assert_eq!(
        thumbnail_after_state_change(NodeState::Dirty, NodeState::Clean, ThumbnailState::Waiting),
        ThumbnailState::Missing
    );
    assert_eq!(
        thumbnail_after_state_change(NodeState::Clean, NodeState::Dirty, ThumbnailState::Present),
        ThumbnailState::Waiting
    );
    assert_eq!(
        thumbnail_after_state_change(
            NodeState::Dirty,
            NodeState::Processing,
            ThumbnailState::Present
        ),
        ThumbnailState::Present
    );
    assert_eq!(
        thumbnail_after_state_change(NodeState::Clean, NodeState::Clean, ThumbnailState::Present),
        ThumbnailState::Missing
    );
}

#[test]
fn highlights() {
    assert_eq!(node_highlight(true, true, true), Highlight::Active);
    assert_eq!(node_highlight(false, true, true), Highlight::Selected);
    assert_eq!(node_highlight(false, false, true), Highlight::Hovered);
    assert_eq!(node_highlight(false, false, false), Highlight::Plain);
    assert_eq!(slot_highlight(true, true), Highlight::Selected);
    assert_eq!(slot_highlight(false, true), Highlight::Hovered);
    assert_eq!(slot_highlight(false, false), Highlight::Plain);
}

#[test]
fn export_needs_four_bytes_per_pixel() {
    let size = Size { width: 2, height: 1 };
    assert_eq!(rgba_image(size, vec![1; 8]), Ok(vec![1; 8]));
    assert_eq!(rgba_image(size, vec![1; 9]), Ok(vec![1; 9]));
    assert_eq!(rgba_image(size, vec![1; 7]), Err(ExportError::BufferTooSmall));
    assert_eq!(rgba_image(Size { width: 0, height: 5 }, Vec::new()), Ok(Vec::new()));
}

#[test]
fn thumbnail_lifecycle() {
    assert_eq!(thumbnail_requested(ThumbnailState::Missing, true), ThumbnailState::Processing);
    assert_eq!(thumbnail_requested(ThumbnailState::Missing, false), ThumbnailState::Missing);
    assert_eq!(thumbnail_requested(ThumbnailState::Present, true), ThumbnailState::Present);
    assert_eq!(thumbnail_polled(ThumbnailPoll::Ready), Some(ThumbnailState::Present));
    assert_eq!(thumbnail_polled(ThumbnailPoll::NoOutput), Some(ThumbnailState::Present));
    assert_eq!(thumbnail_polled(ThumbnailPoll::NotReady), None);
}
