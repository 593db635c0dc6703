//! The request handed to the email transport: who to write to, the subject,
//! and the text body. The SMTP transport itself is an external collaborator;
//! the verified code only decides which dispatches to ask of it.

use vstd::prelude::*;

verus! {

/// The mathematical value of an [`EmailDispatch`].
pub ghost struct EmailModel {
    pub to: Seq<char>,
    pub subject: Seq<char>,
    pub text_body: Seq<char>,
}

/// One email the transport is asked to deliver.
pub struct EmailDispatch {
    pub to: String,
    pub subject: String,
    pub text_body: String,
}

impl View for EmailDispatch {
    type V = EmailModel;

    open spec fn view(&self) -> EmailModel {
        EmailModel { to: self.to@, subject: self.subject@, text_body: self.text_body@ }
    }
}

impl DeepView for EmailDispatch {
    type V = EmailModel;

    open spec fn deep_view(&self) -> EmailModel {
        self.view()
    }
}

/// Bridges elementwise facts about a dispatch list to its deep view.
pub proof fn lemma_dispatch_deep_view(v: Vec<EmailDispatch>, s: Seq<EmailModel>)
    requires
        v@.len() == s.len(),
        forall|i: int| 0 <= i < v@.len() ==> (#[trigger] v@[i])@ == s[i],
    ensures
        v.deep_view() == s,
{
    assert forall|i: int| 0 <= i < v@.len() implies v.deep_view()[i] == s[i] by {
        assert(v.deep_view()[i] == v@[i].deep_view());
    }
    assert(v.deep_view() =~= s);
}

} // verus!
