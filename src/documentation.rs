use vstd::prelude::*;

use vstd::string::StringExecFns;

use crate::error::ListError;

verus! {

/// The documentation pages held in memory: for the API and for the
/// guidelines, a table of contents and the topics as (name, HTML content).
/// Topics are kept in the order they were loaded; where two share a name, the
/// earlier one is served, so a later duplicate never shadows a page already
/// published.
pub struct DocumentationState {
    pub documentation_toc: String,
    pub documentation_topics: Vec<(String, String)>,
    pub guidelines_toc: String,
    pub guidelines_topics: Vec<(String, String)>,
}

/// One documentation page, borrowing its text from the state it came from.
pub struct Documentation<'a> {
    pub toc: &'a String,
    pub content: &'a String,
    pub page: &'a String,
    pub description: &'static str,
    pub title: &'static str,
}

/// Whether index `i` holds the first topic named `page`.
pub open spec fn first_topic(topics: Seq<(String, String)>, page: Seq<char>, i: int) -> bool {
    &&& 0 <= i < topics.len()
    &&& topics[i].0@ == page
    &&& forall|j: int| 0 <= j < i ==> (#[trigger] topics[j]).0@ != page
}

pub open spec fn has_topic(topics: Seq<(String, String)>, page: Seq<char>) -> bool {
    exists|i: int| 0 <= i < topics.len() && (#[trigger] topics[i]).0@ == page
}

/// The index of the first topic named `page`.
fn find_topic(topics: &Vec<(String, String)>, page: &String) -> (r: Option<usize>)
    ensures
        r.is_none() <==> !has_topic(topics@, page@),
        r.is_some() ==> first_topic(topics@, page@, r.unwrap() as int),
{
    let mut i: usize = 0;
    while i < topics.len()
        invariant
            i <= topics@.len(),
            forall|j: int| 0 <= j < i ==> (#[trigger] topics@[j]).0@ != page@,
        decreases topics@.len() - i,
    {
        if topics[i].0 == *page {
            return Some(i);
        }
        i = i + 1;
    }
    None
}

impl<'a> Documentation<'a> {
    /// The page title: the section title, a dash, and the page name.
    pub fn title(&self) -> (r: String)
        ensures
            r@ == self.title@ + " - "@ + self.page@,
    {
        let mut t = String::from_str(self.title);
        t.append(" - ");
        t.append(self.page.as_str());
        t
    }

    /// The API documentation page `page`, from the first topic with that name;
    /// `NotFound` where no topic has it.
    pub fn api_documentation(state: &'a DocumentationState, page: &'a String) -> (r: Result<
        Documentation<'a>,
        ListError,
    >)
        ensures
            !has_topic(state.documentation_topics@, page@) ==> r is Err && r->Err_0
                == ListError::NotFound,
            has_topic(state.documentation_topics@, page@) ==> r is Ok && exists|i: int|
                first_topic(state.documentation_topics@, page@, i) && *r->Ok_0.content
                    == state.documentation_topics@[i].1,
            r is Ok ==> {
                &&& *r->Ok_0.toc == state.documentation_toc
                &&& *r->Ok_0.page == *page
                &&& r->Ok_0.title@ == "API Documentation"@
                &&& r->Ok_0.description@
                    == "The PlusGDPS Demonlist API, which allows you to programmatically interface with the Demonlist"@
            },
    {
        let content = match find_topic(&state.documentation_topics, page) {
            Some(i) => &state.documentation_topics[i].1,
            None => {
                return Err(ListError::NotFound);
            },
        };
        Ok(
            Documentation {
                toc: &state.documentation_toc,
                content,
                page,
                description: "The PlusGDPS Demonlist API, which allows you to programmatically interface with the Demonlist",
                title: "API Documentation",
            },
        )
    }

    /// The guidelines page `page`, from the first topic with that name;
    /// `NotFound` where no topic has it.
    pub fn guidelines(state: &'a DocumentationState, page: &'a String) -> (r: Result<
        Documentation<'a>,
        ListError,
    >)
        ensures
            !has_topic(state.guidelines_topics@, page@) ==> r is Err && r->Err_0
                == ListError::NotFound,
            has_topic(state.guidelines_topics@, page@) ==> r is Ok && exists|i: int|
                first_topic(state.guidelines_topics@, page@, i) && *r->Ok_0.content
                    == state.guidelines_topics@[i].1,
            r is Ok ==> {
                &&& *r->Ok_0.toc == state.guidelines_toc
                &&& *r->Ok_0.page == *page
                &&& r->Ok_0.title@ == "Guildlines"@
                &&& r->Ok_0.description@
                    == "The Demonlist guidelines regarding record submission/acceptance and level placements"@
            },
    {
        let content = match find_topic(&state.guidelines_topics, page) {
            Some(i) => &state.guidelines_topics[i].1,
            None => {
                return Err(ListError::NotFound);
            },
        };
        Ok(
            Documentation {
                toc: &state.guidelines_toc,
                content,
                page,
                description: "The Demonlist guidelines regarding record submission/acceptance and level placements",
                title: "Guildlines",
            },
        )
    }
}

} // verus!
