//! The interface between a session and the engine that runs its queries.

use crate::protocol::{
    fields_view, ErrorResponse, ErrorResponseView, FieldDescription, FieldDescriptionView,
};
use crate::protocol_ext::{DataWriter, DataWriterView};
use vstd::prelude::*;

verus! {

/// A statement that is ready to run, with whatever state the engine keeps
/// for it.
pub trait Portal: Send + Sync {
    /// What running the portal can come to: whether a portal in this
    /// state, handed the writer `before`, can end as `after`, leaving the
    /// writer as `written`, with the result `result`. A kind of portal
    /// says here what it does; one that says nothing can come to anything.
    open spec fn fetches(
        &self,
        before: DataWriterView,
        after: &Self,
        written: DataWriterView,
        result: Result<(), ErrorResponseView>,
    ) -> bool {
        true
    }

    /// Streams all rows of the result into `w`. An engine that could not
    /// name the columns when the statement was prepared names them here,
    /// before the first row.
    ///
    /// The writer arrives without rows; it leaves in the format in which
    /// it came, with every row as wide as its description.
    fn fetch(&mut self, w: &mut DataWriter) -> (r: Result<(), ErrorResponse>)
        requires
            old(w)@.wf(),
            old(w)@.rows.len() == 0,
        ensures
            final(w)@.wf(),
            final(w)@.row_desc.format_code == old(w)@.row_desc.format_code,
            old(self).fetches(old(w)@, final(self), final(w)@, answer_view(r)),
    ;
}

/// The answer of a call to the engine or to a portal, as the rules see
/// it.
pub open spec fn answer_view<T>(r: Result<T, ErrorResponse>) -> Result<T, ErrorResponseView> {
    match r {
        Ok(v) => Ok(v),
        Err(e) => Err(e@),
    }
}

/// The answer of `prepare`, as the rules see it.
pub open spec fn prepared_view(
    r: Result<Vec<FieldDescription>, ErrorResponse>,
) -> Result<Seq<FieldDescriptionView>, ErrorResponseView> {
    match r {
        Ok(fields) => Ok(fields_view(fields@)),
        Err(e) => Err(e@),
    }
}

/// What a session asks of the engine bound to it.
pub trait Engine: Send + Sync + 'static {
    /// The portals that this engine makes.
    type PortalType: Portal;

    /// What starting can come to: whether an engine in this state can end
    /// as `after` with the result `result`. A kind of engine says here
    /// what it does; one that says nothing can come to anything.
    open spec fn starts(&self, after: &Self, result: Result<(), ErrorResponseView>) -> bool {
        true
    }

    /// What preparing `query` can come to, as [`Engine::starts`] is for
    /// starting.
    open spec fn prepares(
        &self,
        query: Seq<char>,
        after: &Self,
        result: Result<Seq<FieldDescriptionView>, ErrorResponseView>,
    ) -> bool {
        true
    }

    /// What making a portal for `query` can come to, as [`Engine::starts`]
    /// is for starting.
    open spec fn creates(
        &self,
        query: Seq<char>,
        after: &Self,
        result: Result<Self::PortalType, ErrorResponseView>,
    ) -> bool {
        true
    }

    /// Called once, after the handshake and before the session reports
    /// itself ready.
    fn startup(&mut self) -> (r: Result<(), ErrorResponse>)
        ensures
            old(self).starts(final(self), answer_view(r)),
    ;

    /// The columns of the result of `query`; none where the engine cannot
    /// tell before it runs the query.
    fn prepare(&mut self, query: &String) -> (r: Result<Vec<FieldDescription>, ErrorResponse>)
        ensures
            old(self).prepares(query@, final(self), prepared_view(r)),
    ;

    /// A portal that will run `query`.
    fn create_portal(&mut self, query: &String) -> (r: Result<Self::PortalType, ErrorResponse>)
        ensures
            old(self).creates(query@, final(self), answer_view(r)),
    ;
}

} // verus!
