//! What the account pages show when the data they need cannot be had.

use vstd::prelude::*;
use crate::auth::accreditation::Notice;

verus! {

/// The pages that read users from the database.
#[derive(PartialEq, Eq, Structural)]
pub enum Page {
    Index,
    Users,
    User,
    Update,
}

/// The text a page shows when its lookup fails without an error message.
pub open spec fn absent_text(page: Page) -> Seq<char> {
    match page {
        Page::Index => "index Err Caramba bullfighting and damn it"@,
        Page::Users => "Err-None Caramba bullfighting and damn it"@,
        Page::User => "Caramba bullfighting and damn it"@,
        Page::Update => "Caramba bullfighting and damn it"@,
    }
}

/// The note a page shows when its lookup fails: the error message under
/// `err`, or, without one, the page's own text under `is_no`.
pub fn page_failure(page: Page, err: Option<String>) -> (r: Notice)
    ensures
        match err {
            Some(e) => r.key@ == "err"@ && r.text@ == e@,
            None => r.key@ == "is_no"@ && r.text@ == absent_text(page),
        },
{
    match err {
        Some(e) => Notice { key: "err".to_owned(), text: e },
        None => {
            let text = match page {
                Page::Index => "index Err Caramba bullfighting and damn it".to_owned(),
                Page::Users => "Err-None Caramba bullfighting and damn it".to_owned(),
                Page::User => "Caramba bullfighting and damn it".to_owned(),
                Page::Update => "Caramba bullfighting and damn it".to_owned(),
            };
            Notice { key: "is_no".to_owned(), text }
        },
    }
}

} // verus!
