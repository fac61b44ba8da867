//! Chat comments and the elements they are made of.

use vstd::prelude::*;

verus! {

/// One piece of a chat message.
#[derive(Debug, PartialEq, Eq)]
pub enum CommentElement {
    /// Literal text.
    Text { content: String },
    /// An emoji, given by the address of its image.
    Emoji { url: String },
}

/// The mathematical value of a [`CommentElement`].
pub enum ElementView {
    Text { content: Seq<char> },
    Emoji { url: Seq<char> },
}

impl View for CommentElement {
    type V = ElementView;

    open spec fn view(&self) -> ElementView {
        match self {
            CommentElement::Text { content } => ElementView::Text { content: content@ },
            CommentElement::Emoji { url } => ElementView::Emoji { url: url@ },
        }
    }
}

impl DeepView for CommentElement {
    type V = ElementView;

    open spec fn deep_view(&self) -> ElementView {
        self@
    }
}

impl Clone for CommentElement {
    fn clone(&self) -> (copy: Self)
        ensures
            copy@ == self@,
    {
        match self {
            CommentElement::Text { content } => CommentElement::Text { content: content.clone() },
            CommentElement::Emoji { url } => CommentElement::Emoji { url: url.clone() },
        }
    }
}

/// One chat message: its elements from left to right, at least one.
#[derive(Debug, PartialEq, Eq)]
pub struct SerializedComment {
    elements: Vec<CommentElement>,
}

impl View for SerializedComment {
    type V = Seq<ElementView>;

    closed spec fn view(&self) -> Seq<ElementView> {
        self.elements.deep_view()
    }
}

impl DeepView for SerializedComment {
    type V = Seq<ElementView>;

    open spec fn deep_view(&self) -> Seq<ElementView> {
        self@
    }
}

impl Clone for SerializedComment {
    fn clone(&self) -> (copy: Self)
        ensures
            copy@ == self@,
    {
        proof {
            use_type_invariant(self);
        }
        let mut elements: Vec<CommentElement> = Vec::new();
        let mut i: usize = 0;
        while i < self.elements.len()
            invariant
                i <= self.elements@.len(),
                elements.deep_view() == self.elements.deep_view().take(i as int),
            decreases self.elements@.len() - i,
        {
            let ghost before = elements.deep_view();
            let element = self.elements[i].clone();
            elements.push(element);
            proof {
                assert(elements.deep_view() == before.push(element@));
                assert(self.elements.deep_view().take(i + 1) == self.elements.deep_view().take(
                    i as int,
                ).push(self.elements@[i as int]@));
            }
            i += 1;
        }
        proof {
            assert(self.elements.deep_view().take(i as int) == self.elements.deep_view());
        }
        SerializedComment { elements }
    }
}

impl SerializedComment {
    #[verifier::type_invariant]
    pub closed spec fn wf(&self) -> bool {
        self.elements@.len() > 0
    }

    /// A comment is never empty.
    pub proof fn lemma_nonempty(&self)
        requires
            self.wf(),
        ensures
            self@.len() > 0,
    {
    }

    /// The comment made of `elements`, unless there are none.
    pub fn new(elements: Vec<CommentElement>) -> (comment: Option<Self>)
        ensures
            comment is None <==> elements@.len() == 0,
            comment matches Some(c) ==> c.wf() && c@ == elements.deep_view(),
    {
        if elements.is_empty() {
            None
        } else {
            Some(Self { elements })
        }
    }

    /// The elements of the comment, from left to right.
    pub fn elements(&self) -> (elements: &Vec<CommentElement>)
        ensures
            elements.deep_view() == self@,
            elements@.len() > 0,
    {
        proof {
            use_type_invariant(self);
        }
        &self.elements
    }
}

} // verus!
