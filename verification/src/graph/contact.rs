//! The contact card as the GraphQL layer resolves it.

use vstd::prelude::*;

use crate::models::contact::Contact as ContactModel;

verus! {

/// A resolver-side wrapper around the contact model.
pub struct Contact {
    model: ContactModel,
}

impl Contact {
    /// The model this resolver wraps.
    pub closed spec fn spec_model(&self) -> ContactModel {
        self.model
    }

    pub fn new(model: ContactModel) -> (r: Contact)
        ensures
            r.spec_model() == model,
    {
        Contact { model }
    }

    /// The wrapped model, for the resolvers around the library.
    pub fn model(&self) -> (r: &ContactModel)
        ensures
            r == self.spec_model(),
    {
        &self.model
    }
}

} // verus!
