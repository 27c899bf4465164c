//! Messages of a conversation thread, and the text that is relayed from them.

use vstd::prelude::*;
use vstd::string::*;

verus! {

/// One typed piece of a message's content. Only text is relayed; every other
/// kind of content (an image file, say) is carried as `Other`.
#[derive(Clone, Debug, PartialEq, Eq)]
pub enum ContentSegment {
    Text(String),
    Other,
}

/// The mathematical value of a [`ContentSegment`].
pub enum SegmentView {
    Text(Seq<char>),
    Other,
}

impl View for ContentSegment {
    type V = SegmentView;

    open spec fn view(&self) -> SegmentView {
        match self {
            ContentSegment::Text(text) => SegmentView::Text(text@),
            ContentSegment::Other => SegmentView::Other,
        }
    }
}

impl DeepView for ContentSegment {
    type V = SegmentView;

    open spec fn deep_view(&self) -> SegmentView {
        self@
    }
}

/// A message of a thread: its content segments, in order.
#[derive(Clone, Debug, PartialEq, Eq)]
pub struct ThreadMessage {
    pub content: Vec<ContentSegment>,
}

impl View for ThreadMessage {
    type V = Seq<SegmentView>;

    open spec fn view(&self) -> Seq<SegmentView> {
        self.content.deep_view()
    }
}

impl DeepView for ThreadMessage {
    type V = Seq<SegmentView>;

    open spec fn deep_view(&self) -> Seq<SegmentView> {
        self@
    }
}

impl SegmentView {
    /// The characters a segment contributes to a reply: its text, or nothing.
    pub open spec fn text(self) -> Seq<char> {
        match self {
            SegmentView::Text(text) => text,
            SegmentView::Other => Seq::empty(),
        }
    }
}

/// The reply carried by a message: the text segments joined in order, with
/// every other segment left out.
pub open spec fn joined_text(segments: Seq<SegmentView>) -> Seq<char>
    decreases segments.len(),
{
    if segments.len() == 0 {
        Seq::empty()
    } else {
        joined_text(segments.drop_last()) + segments.last().text()
    }
}

/// Joins the text segments of a message's content, in order.
pub fn extract_text(content: &Vec<ContentSegment>) -> (reply: String)
    ensures
        reply@ == joined_text(content.deep_view()),
{
    let mut reply = String::new();
    let mut i: usize = 0;
    while i < content.len()
        invariant
            i <= content.len(),
            reply@ == joined_text(content.deep_view().take(i as int)),
        decreases content.len() - i,
    {
        proof {
            let all = content.deep_view();
            assert(all.take(i + 1).drop_last() == all.take(i as int));
            assert(all.take(i + 1).last() == content@[i as int]@);
        }
        match &content[i] {
            ContentSegment::Text(text) => {
                reply.append(text.as_str());
            },
            ContentSegment::Other => {},
        }
        i += 1;
    }
    proof {
        assert(content.deep_view().take(content.len() as int) == content.deep_view());
    }
    reply
}

/// Joining distributes over concatenation: the reply of a content list is the
/// reply of any prefix followed by the reply of the rest.
pub proof fn law_joining_follows_concatenation(front: Seq<SegmentView>, back: Seq<SegmentView>)
    ensures
        joined_text(front + back) == joined_text(front) + joined_text(back),
    decreases back.len(),
{
    if back.len() == 0 {
        assert(front + back == front);
    } else {
        assert((front + back).drop_last() == front + back.drop_last());
        law_joining_follows_concatenation(front, back.drop_last());
    }
}

/// Segments that are not text contribute nothing: dropping them from the
/// content leaves the reply unchanged.
pub proof fn law_other_segments_are_dropped(segments: Seq<SegmentView>)
    ensures
        joined_text(segments.filter(|s: SegmentView| s is Text)) == joined_text(segments),
    decreases segments.len(),
{
    reveal(Seq::filter);
    if segments.len() > 0 {
        let is_text = |s: SegmentView| s is Text;
        let kept = segments.drop_last().filter(is_text);
        law_other_segments_are_dropped(segments.drop_last());
        if segments.last() is Text {
            assert(kept.push(segments.last()).drop_last() == kept);
        }
    }
}

} // verus!
