//! What a request asks of the PDF engine: the query parameters of the two
//! endpoints and the options built from them.
use vstd::prelude::*;
use crate::page_spec::{
    lemma_increasing_list_unique, parse_page_spec, selected_pages, strictly_increasing,
};

verus! {

/// How much work the engine does for a request.
#[derive(Debug, Clone, Copy, PartialEq, Eq, Structural)]
pub enum ProcessMode {
    /// Classify the PDF and extract Markdown.
    Full,
    /// Classify only.
    DetectOnly,
}

/// The engine options that one request asks for.
#[derive(Debug, Clone)]
pub struct RequestOptions {
    pub mode: ProcessMode,
    /// The 1-indexed pages to extract, increasing and without repeats; `None` for all pages.
    pub pages: Option<Vec<u32>>,
    /// The password for an encrypted PDF.
    pub password: Option<String>,
    /// Collapse token-heavy formatting (compact Markdown profile); otherwise the
    /// default Markdown options.
    pub compact: bool,
}

/// Query parameters for the conversion endpoint.
#[derive(Debug, Clone)]
pub struct ConvertQuery {
    /// Pages to extract, 1-indexed, e.g. `1,3,5-10`. Omit for all pages.
    pub select_pages: Option<String>,
    /// Password for an encrypted PDF.
    pub password: Option<String>,
    /// `true` to collapse token-heavy source formatting (dot leaders, etc.).
    pub compact: Option<bool>,
}

/// Query parameters for the detect endpoint.
#[derive(Debug, Clone)]
pub struct DetectQuery {
    /// Password for an encrypted PDF.
    pub password: Option<String>,
}

/// Whether `o` is what the query values ask for: the mode as given; the pages of
/// the selector when it names any; a password only when a non-empty one is
/// given; the compact profile only for `compact=true`.
pub open spec fn options_for(
    o: RequestOptions,
    mode: ProcessMode,
    select_pages: Option<String>,
    password: Option<String>,
    compact: Option<bool>,
) -> bool {
    &&& o.mode == mode
    &&& match select_pages {
        Some(spec) => if selected_pages(spec@).is_empty() {
            o.pages is None
        } else {
            o.pages matches Some(pages) && strictly_increasing(pages@) && pages@.to_set()
                == selected_pages(spec@)
        },
        None => o.pages is None,
    }
    &&& match password {
        Some(pw) => if pw@.len() > 0 {
            o.password == Some(pw)
        } else {
            o.password is None
        },
        None => o.password is None,
    }
    &&& o.compact == (compact == Some(true))
}

/// The engine options that the query values ask for.
pub fn build_options(
    mode: ProcessMode,
    select_pages: &Option<String>,
    password: &Option<String>,
    compact: Option<bool>,
) -> (options: RequestOptions)
    ensures
        options_for(options, mode, *select_pages, *password, compact),
        options.mode == mode,
        options.pages matches Some(pages) ==> (select_pages matches Some(spec) && pages@.len() > 0
            && strictly_increasing(pages@) && pages@.to_set() == selected_pages(spec@)),
        forall|n: u32|
            #![trigger selected_pages(select_pages->0@).contains(n)]
            select_pages is Some && selected_pages(select_pages->0@).contains(n) ==> (
            options.pages matches Some(pages) && pages@.contains(n)),
        options.password matches Some(pw) ==> (password matches Some(given) && pw@ == given@
            && pw@.len() > 0),
        (password matches Some(given) && given@.len() > 0) ==> options.password is Some,
        options.compact <==> compact == Some(true),
{
    let pages = match select_pages {
        Some(spec) => {
            let pages = parse_page_spec(spec.as_str());
            if pages.len() == 0 {
                assert(pages@.to_set() =~= Set::<u32>::empty());
                None
            } else {
                assert(pages@.to_set().contains(pages@[0]));
                assert forall|n: u32| selected_pages(spec@).contains(n) implies pages@.contains(
                    n,
                ) by {
                    assert(pages@.to_set().contains(n));
                }
                Some(pages)
            }
        },
        None => None,
    };
    let password = match password {
        Some(pw) => {
            if pw.as_str().is_empty() {
                None
            } else {
                Some(pw.clone())
            }
        },
        None => None,
    };
    let compact = match compact {
        Some(c) => c,
        None => false,
    };
    RequestOptions { mode, pages, password, compact }
}

/// The pages of a request are the list that `parse_page_spec` gives for its
/// selector whenever that list is not empty, and all pages (`None`) otherwise:
/// a selector naming page `n` alone asks for `[n]`.
pub proof fn lemma_options_pages_follow_selector(
    mode: ProcessMode,
    select_pages: Option<String>,
    password: Option<String>,
    compact: Option<bool>,
    options: RequestOptions,
    spec: &str,
    pages: Vec<u32>,
)
    requires
        call_ensures(build_options, (mode, &select_pages, &password, compact), options),
        select_pages matches Some(s) && s@ == spec@,
        call_ensures(parse_page_spec, (spec,), pages),
    ensures
        pages@.len() == 0 ==> options.pages is None,
        pages@.len() > 0 ==> (options.pages matches Some(chosen) && chosen@ == pages@),
{
    if pages@.len() == 0 {
        if let Some(chosen) = options.pages {
            assert(chosen@.to_set().contains(chosen@[0]));
            assert(pages@.to_set() =~= Set::<u32>::empty());
        }
    } else {
        assert(pages@.to_set().contains(pages@[0]));
        let chosen = options.pages->0;
        lemma_increasing_list_unique(chosen@, pages@);
    }
}

/// Without a selector every page is asked for, the password is kept only when
/// it is not empty, and the compact profile is used only for `compact=true`.
pub proof fn lemma_options_other_fields(
    mode: ProcessMode,
    select_pages: Option<String>,
    password: Option<String>,
    compact: Option<bool>,
    options: RequestOptions,
)
    requires
        call_ensures(build_options, (mode, &select_pages, &password, compact), options),
    ensures
        options.mode == mode,
        select_pages is None ==> options.pages is None,
        (password is Some && password->0@.len() > 0) ==> (options.password matches Some(kept)
            && kept@ == password->0@),
        (password is None || (password matches Some(pw) && pw@.len() == 0))
            ==> options.password is None,
        options.compact == (compact == Some(true)),
{
}

impl ConvertQuery {
    /// The engine options for a conversion request with these parameters.
    pub fn to_options(&self) -> (options: RequestOptions)
        ensures
            options_for(
                options,
                ProcessMode::Full,
                self.select_pages,
                self.password,
                self.compact,
            ),
            options.mode == ProcessMode::Full,
            options.pages matches Some(pages) ==> (self.select_pages matches Some(spec)
                && pages@.len() > 0 && strictly_increasing(pages@) && pages@.to_set()
                == selected_pages(spec@)),
            forall|n: u32|
                #![trigger selected_pages(self.select_pages->0@).contains(n)]
                self.select_pages is Some && selected_pages(self.select_pages->0@).contains(n)
                    ==> (options.pages matches Some(pages) && pages@.contains(n)),
            options.password matches Some(pw) ==> (self.password matches Some(given) && pw@
                == given@ && pw@.len() > 0),
            (self.password matches Some(given) && given@.len() > 0) ==> options.password is Some,
            options.compact <==> self.compact == Some(true),
    {
        build_options(ProcessMode::Full, &self.select_pages, &self.password, self.compact)
    }
}

impl DetectQuery {
    /// The engine options for a classification request with these parameters:
    /// all pages, no Markdown options.
    pub fn to_options(&self) -> (options: RequestOptions)
        ensures
            options_for(options, ProcessMode::DetectOnly, None, self.password, None),
            options.mode == ProcessMode::DetectOnly,
            options.pages is None,
            options.password matches Some(pw) ==> (self.password matches Some(given) && pw@
                == given@ && pw@.len() > 0),
            (self.password matches Some(given) && given@.len() > 0) ==> options.password is Some,
            !options.compact,
    {
        build_options(ProcessMode::DetectOnly, &None, &self.password, None)
    }
}

} // verus!
