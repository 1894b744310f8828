//! The states of a document of pages: which actions it accepts and what
//! each accepted action adds to it. Writing the text out is left to the
//! caller, which renders each `Emit`.
use vstd::prelude::*;

verus! {

/// An action on a document.
#[derive(Clone, Copy, Debug, PartialEq, Eq, Structural)]
pub enum DocAct {
    /// Start the document.
    Open,
    /// Start a new page.
    PageStart,
    /// Add a fragment to the current page.
    AddFragment,
    /// Finish the current page and write it out.
    PageEnd,
    /// Finish the document and write out its footer.
    Close,
}

/// What an accepted action adds to the document.
#[derive(Clone, Copy, Debug, PartialEq, Eq, Structural)]
pub enum Emit {
    /// The document header.
    DocHead,
    /// The header of the page with this number, after a separator when
    /// another page came before.
    PageHead { separator: bool, page_no: usize },
    /// The header of a fragment, numbered within its page, followed by
    /// the fragment itself.
    FragmentHead { page_no: usize, frag_no: usize },
    /// The footer of the page with this number; the page is then written.
    PageFoot { page_no: usize },
    /// The document footer; it is then written.
    DocFoot,
}

/// Why an action was refused.
#[derive(Clone, Copy, Debug, PartialEq, Eq, Structural)]
pub enum DocError {
    /// The document is not in a state that accepts the action.
    Misplaced { act: DocAct },
    /// A page or fragment number would pass the largest `usize`.
    TooMany,
}

/// Where a document stands.
#[derive(Clone, Copy, Debug, PartialEq, Eq, Structural)]
pub struct DocState {
    /// Open and not yet closed.
    pub indoc: bool,
    /// Inside a page.
    pub inpage: bool,
    /// Number of the current page, 0 before the first.
    pub page_no: usize,
    /// Number of the current fragment within its page.
    pub frag_no: usize,
    /// Closed: no action is accepted any more.
    pub closed: bool,
}

/// A document that was never opened.
pub fn doc_new() -> (ds: DocState)
    ensures
        ds == (DocState { indoc: false, inpage: false, page_no: 0, frag_no: 0, closed: false }),
{
    DocState { indoc: false, inpage: false, page_no: 0, frag_no: 0, closed: false }
}

/// Whether the document accepts `act` in state `s`.
pub open spec fn accepts(s: DocState, act: DocAct) -> bool {
    match act {
        DocAct::Open => !s.closed && !s.indoc && !s.inpage && s.page_no == 0 && s.frag_no == 0,
        DocAct::PageStart => s.indoc && !s.inpage,
        DocAct::AddFragment => s.inpage,
        DocAct::PageEnd => s.indoc && s.inpage && s.frag_no > 0,
        DocAct::Close => s.indoc && !s.inpage && s.page_no > 0,
    }
}

/// Whether the number that `act` would advance is already the largest.
pub open spec fn overflows(s: DocState, act: DocAct) -> bool {
    match act {
        DocAct::PageStart => s.page_no == usize::MAX,
        DocAct::AddFragment => s.frag_no == usize::MAX,
        _ => false,
    }
}

/// The state after an accepted action.
pub open spec fn next_state(s: DocState, act: DocAct) -> DocState {
    match act {
        DocAct::Open => DocState { indoc: true, ..s },
        DocAct::PageStart => DocState {
            inpage: true,
            page_no: (s.page_no + 1) as usize,
            frag_no: 0,
            ..s
        },
        DocAct::AddFragment => DocState { frag_no: (s.frag_no + 1) as usize, ..s },
        DocAct::PageEnd => DocState { inpage: false, ..s },
        DocAct::Close => DocState { indoc: false, frag_no: 0, closed: true, ..s },
    }
}

/// What an accepted action adds.
pub open spec fn emitted(s: DocState, act: DocAct) -> Emit {
    match act {
        DocAct::Open => Emit::DocHead,
        DocAct::PageStart => Emit::PageHead {
            separator: s.page_no > 0,
            page_no: (s.page_no + 1) as usize,
        },
        DocAct::AddFragment => Emit::FragmentHead {
            page_no: s.page_no,
            frag_no: (s.frag_no + 1) as usize,
        },
        DocAct::PageEnd => Emit::PageFoot { page_no: s.page_no },
        DocAct::Close => Emit::DocFoot,
    }
}

/// Applies `act` to the document: refused with the state unchanged, or
/// accepted with the next state and what the action adds.
pub fn doc(ds: &mut DocState, act: DocAct) -> (r: Result<Emit, DocError>)
    ensures
        !accepts(*old(ds), act) ==> r == Err::<Emit, DocError>(DocError::Misplaced { act })
            && *final(ds) == *old(ds),
        accepts(*old(ds), act) && overflows(*old(ds), act) ==> r == Err::<Emit, DocError>(
            DocError::TooMany,
        ) && *final(ds) == *old(ds),
        accepts(*old(ds), act) && !overflows(*old(ds), act) ==> r == Ok::<Emit, DocError>(
            emitted(*old(ds), act),
        ) && *final(ds) == next_state(*old(ds), act),
{
    match act {
        DocAct::Open => {
            if ds.closed || ds.indoc || ds.inpage || ds.page_no != 0 || ds.frag_no != 0 {
                return Err(DocError::Misplaced { act });
            }
            ds.indoc = true;
            Ok(Emit::DocHead)
        },
        DocAct::PageStart => {
            if !ds.indoc || ds.inpage {
                return Err(DocError::Misplaced { act });
            }
            if ds.page_no == usize::MAX {
                return Err(DocError::TooMany);
            }
            let separator = ds.page_no > 0;
            ds.page_no = ds.page_no + 1;
            ds.frag_no = 0;
            ds.inpage = true;
            Ok(Emit::PageHead { separator, page_no: ds.page_no })
        },
        DocAct::AddFragment => {
            if !ds.inpage {
                return Err(DocError::Misplaced { act });
            }
            if ds.frag_no == usize::MAX {
                return Err(DocError::TooMany);
            }
            ds.frag_no = ds.frag_no + 1;
            Ok(Emit::FragmentHead { page_no: ds.page_no, frag_no: ds.frag_no })
        },
        DocAct::PageEnd => {
            if !ds.indoc || !ds.inpage || ds.frag_no == 0 {
                return Err(DocError::Misplaced { act });
            }
            ds.inpage = false;
            Ok(Emit::PageFoot { page_no: ds.page_no })
        },
        DocAct::Close => {
            if !ds.indoc || ds.inpage || ds.page_no == 0 {
                return Err(DocError::Misplaced { act });
            }
            ds.indoc = false;
            ds.frag_no = 0;
            ds.closed = true;
            Ok(Emit::DocFoot)
        },
    }
}

/// A page is only ever open inside an open document: every state reached
/// from a new document by accepted actions has `inpage` only with `indoc`,
/// and a closed document is neither open nor inside a page.
pub open spec fn doc_consistent(s: DocState) -> bool {
    &&& s.inpage ==> s.indoc
    &&& s.closed ==> !s.indoc && !s.inpage
    &&& s.indoc ==> !s.closed
}

/// Accepted actions keep a document consistent, and a closed document
/// accepts nothing.
pub proof fn lemma_doc_consistent(s: DocState, act: DocAct)
    requires
        doc_consistent(s),
    ensures
        accepts(s, act) ==> doc_consistent(next_state(s, act)),
        s.closed ==> !accepts(s, act),
{
}

} // verus!
