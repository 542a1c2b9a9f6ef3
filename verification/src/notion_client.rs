use crate::error::{ErrorModel, NotionError};
use crate::json_value::{json_doc, to_text, JsonDoc};
use crate::notion_database::{
    parse_database_schema, parsed_schema, read_text, text_field, NotionDatabaseSchema, SchemaModel,
};
use crate::notion_pages::{
    cursor_model, pages_model, parse_notion_page_list, parsed_page_list, NotionPage, PageModel,
};
use vstd::prelude::*;

verus! {

/// The number of pages that one request asks for.
pub const PAGE_SIZE: i32 = 10;

/// Reads what the source answers.
pub struct NotionClient {
    pub api_key: String,
}

/// Where the retrieval of the pages of a database stands: the next request is
/// due, with the cursor that the last answer gave, or all has been retrieved.
#[derive(Debug, PartialEq, Eq)]
pub enum FetchState {
    Continue(Option<String>),
    Done,
}

/// A `FetchState` as a mathematical value.
pub enum FetchStateModel {
    Continue(Option<Seq<char>>),
    Done,
}

impl View for FetchState {
    type V = FetchStateModel;

    open spec fn view(&self) -> FetchStateModel {
        match self {
            FetchState::Continue(cursor) => FetchStateModel::Continue(cursor_model(*cursor)),
            FetchState::Done => FetchStateModel::Done,
        }
    }
}

/// One request for a list of pages.
#[derive(Debug, PartialEq, Eq)]
pub struct PageRequest {
    pub page_size: i32,
    pub start_cursor: Option<String>,
}

/// The retrieval of all pages of a database, one list at a time.
///
/// Whoever drives it sends the request that `request` hands out and gives the
/// answer to `accept`, until `request` hands out none. That is the case once the
/// retrieval is done, and, where a ceiling was set, once as many answers were
/// taken as the ceiling allows.
pub struct PageFetcher<'a> {
    pub schema: &'a NotionDatabaseSchema,
    pub state: FetchState,
    pub pages: Vec<NotionPage>,
    /// How many more answers may be taken, where their number is limited.
    pub remaining: Option<usize>,
}

/// Whether a response is an answer to what was asked; if not, the error that
/// carries the response.
pub open spec fn response_accepted(doc: JsonDoc) -> Result<(), ErrorModel> {
    match text_field(doc, "object"@) {
        None => Err(ErrorModel::UnexpectedResponse(doc.text)),
        Some(kind) => if kind == "error"@ {
            Err(ErrorModel::ErrorResponse(doc.text))
        } else {
            Ok(())
        },
    }
}

/// The schema that a response to a request for a database gives.
pub open spec fn database_of(doc: JsonDoc) -> Result<SchemaModel, ErrorModel> {
    match response_accepted(doc) {
        Err(e) => Err(e),
        Ok(_) => parsed_schema(doc),
    }
}

/// The state after an answer that gave `cursor`.
pub open spec fn state_after(cursor: Option<Seq<char>>) -> FetchStateModel {
    match cursor {
        Some(c) => FetchStateModel::Continue(Some(c)),
        None => FetchStateModel::Done,
    }
}

/// Where a retrieval stands: its state, the pages that it holds, and how many
/// more answers it may take, where their number is limited.
pub struct Progress {
    pub state: FetchStateModel,
    pub pages: Seq<PageModel>,
    pub remaining: Option<nat>,
}

impl Progress {
    /// Whether a request is due: the retrieval is not done, and may take
    /// another answer.
    pub open spec fn is_due(self) -> bool {
        self.state is Continue && self.remaining != Some(0nat)
    }
}

/// What is left of a limited number of answers after one of them was taken.
pub open spec fn one_less(remaining: Option<nat>) -> Option<nat> {
    match remaining {
        Some(n) => Some((n - 1) as nat),
        None => None,
    }
}

/// Where a retrieval stands after `doc` was given to it. Where no request was
/// due, the answer is not read. An answer that is turned down ends the retrieval
/// and leaves it without pages.
pub open spec fn progress_after(schema: SchemaModel, before: Progress, doc: JsonDoc) -> Progress {
    if before.is_due() {
        match parsed_page_list(schema, doc) {
            Ok((pages, cursor)) => Progress {
                state: state_after(cursor),
                pages: before.pages + pages,
                remaining: one_less(before.remaining),
            },
            Err(_) => Progress {
                state: FetchStateModel::Done,
                pages: Seq::empty(),
                remaining: one_less(before.remaining),
            },
        }
    } else {
        before
    }
}

impl NotionClient {
    /// Accepts a response that has a string under `object` which is not `error`.
    /// Any other response is turned down, with an error that carries it.
    pub fn validate_response(&self, resp: &serde_json::Value) -> (r: Result<(), NotionError>)
        ensures
            match r {
                Ok(_) => response_accepted(json_doc(*resp)) is Ok,
                Err(e) => response_accepted(json_doc(*resp)) == Err::<(), ErrorModel>(e@),
            },
    {
        match read_text(resp, "object") {
            None => Err(NotionError::UnexpectedResponse(to_text(resp))),
            Some(kind) => {
                if *kind == *"error" {
                    Err(NotionError::ErrorResponse(to_text(resp)))
                } else {
                    Ok(())
                }
            },
        }
    }

    /// Reads the schema of a database from the response to the request for it.
    pub fn get_database(&self, resp: &serde_json::Value) -> (r: Result<
        NotionDatabaseSchema,
        NotionError,
    >)
        ensures
            match r {
                Ok(schema) => database_of(json_doc(*resp)) == Ok::<SchemaModel, ErrorModel>(
                    schema@,
                ),
                Err(e) => database_of(json_doc(*resp)) == Err::<SchemaModel, ErrorModel>(e@),
            },
    {
        match self.validate_response(resp) {
            Err(e) => {
                return Err(e);
            },
            Ok(_) => {},
        }
        parse_database_schema(resp)
    }

    /// Starts the retrieval of all pages of a database with the schema `schema`:
    /// nothing is retrieved yet, the first request is due, without a cursor, and
    /// the number of answers is not limited.
    pub fn get_all_pages<'a>(&self, schema: &'a NotionDatabaseSchema) -> (r: PageFetcher<'a>)
        ensures
            *r.schema == *schema,
            r.progress() == progress_at_start(None),
    {
        let r = PageFetcher {
            schema,
            state: FetchState::Continue(None),
            pages: Vec::new(),
            remaining: None,
        };
        assert(pages_model(r.pages@) =~= Seq::empty());
        r
    }
}

/// Where a retrieval stands before the first answer.
pub open spec fn progress_at_start(ceiling: Option<nat>) -> Progress {
    Progress { state: FetchStateModel::Continue(None), pages: Seq::empty(), remaining: ceiling }
}

impl<'a> PageFetcher<'a> {
    /// Where the retrieval stands.
    pub open spec fn progress(&self) -> Progress {
        Progress {
            state: self.state@,
            pages: pages_model(self.pages@),
            remaining: match self.remaining {
                Some(n) => Some(n as nat),
                None => None,
            },
        }
    }

    /// The same retrieval, with no more than `ceiling` answers to be taken from
    /// here on.
    pub fn with_ceiling(self, ceiling: usize) -> (r: PageFetcher<'a>)
        ensures
            r.schema == self.schema,
            r.progress() == (Progress { remaining: Some(ceiling as nat), ..self.progress() }),
    {
        PageFetcher {
            schema: self.schema,
            state: self.state,
            pages: self.pages,
            remaining: Some(ceiling),
        }
    }

    /// Whether all has been retrieved.
    pub fn is_done(&self) -> (r: bool)
        ensures
            r == (self.state@ is Done),
    {
        match &self.state {
            FetchState::Done => true,
            FetchState::Continue(_) => false,
        }
    }

    /// Whether a request is due.
    pub fn is_due(&self) -> (r: bool)
        ensures
            r == self.progress().is_due(),
    {
        let allowed = match self.remaining {
            Some(n) => n > 0,
            None => true,
        };
        allowed && !self.is_done()
    }

    /// The request that is due: one for `PAGE_SIZE` pages, with the cursor that
    /// the last answer gave.
    pub fn request(&self) -> (r: Option<PageRequest>)
        ensures
            r is Some == self.progress().is_due(),
            r is Some ==> r->0.page_size == PAGE_SIZE && self.state@
                == FetchStateModel::Continue(cursor_model(r->0.start_cursor)),
    {
        if !self.is_due() {
            return None;
        }
        match &self.state {
            FetchState::Continue(cursor) => {
                let start_cursor = match cursor {
                    Some(c) => Some(c.clone()),
                    None => None,
                };
                Some(PageRequest { page_size: PAGE_SIZE, start_cursor })
            },
            FetchState::Done => None,
        }
    }

    /// Takes the answer to the request that was due: its pages go behind those
    /// that were retrieved before, and with a cursor in it the next request
    /// follows, without one the retrieval is done. An answer that is no list of
    /// pages is turned down; that ends the retrieval and leaves it without pages.
    /// Where no request was due, the answer is not read.
    pub fn accept(&mut self, resp: &serde_json::Value) -> (r: Result<(), NotionError>)
        ensures
            final(self).schema == old(self).schema,
            final(self).progress() == progress_after(
                old(self).schema@,
                old(self).progress(),
                json_doc(*resp),
            ),
            match r {
                Ok(_) => !old(self).progress().is_due() || parsed_page_list(
                    old(self).schema@,
                    json_doc(*resp),
                ) is Ok,
                Err(e) => old(self).progress().is_due() && parsed_page_list(
                    old(self).schema@,
                    json_doc(*resp),
                ) == Err::<(Seq<PageModel>, Option<Seq<char>>), ErrorModel>(e@),
            },
    {
        if !self.is_due() {
            return Ok(());
        }
        self.remaining = match self.remaining {
            Some(n) => Some(n - 1),
            None => None,
        };
        match parse_notion_page_list(self.schema, resp) {
            Err(e) => {
                self.state = FetchState::Done;
                self.pages = Vec::new();
                assert(pages_model(self.pages@) =~= Seq::empty());
                Err(e)
            },
            Ok((mut pages, next_cursor)) => {
                let ghost before = pages_model(self.pages@);
                let ghost added = pages_model(pages@);
                self.pages.append(&mut pages);
                assert(pages_model(self.pages@) =~= before + added);
                self.state = match next_cursor {
                    Some(cursor) => FetchState::Continue(Some(cursor)),
                    None => FetchState::Done,
                };
                Ok(())
            },
        }
    }

    /// Hands out the pages that were retrieved, in the order in which they came.
    pub fn into_pages(self) -> (r: Vec<NotionPage>)
        ensures
            r == self.pages,
    {
        self.pages
    }
}

/// Where a retrieval that stood at `start` stands after it was given `answers`,
/// one after the other.
pub open spec fn progress_through(
    schema: SchemaModel,
    start: Progress,
    answers: Seq<JsonDoc>,
) -> Progress
    decreases answers.len(),
{
    if answers.len() == 0 {
        start
    } else {
        progress_after(
            schema,
            progress_through(schema, start, answers.drop_last()),
            answers.last(),
        )
    }
}

/// The pages of `answers`, those of an earlier answer before those of a later.
pub open spec fn pages_through(schema: SchemaModel, answers: Seq<JsonDoc>) -> Seq<PageModel>
    decreases answers.len(),
{
    if answers.len() == 0 {
        Seq::empty()
    } else {
        pages_through(schema, answers.drop_last()) + match parsed_page_list(schema, answers.last()) {
            Ok((pages, _)) => pages,
            Err(_) => Seq::empty(),
        }
    }
}

/// The cursor that an answer gives, if it is accepted and gives one.
pub open spec fn cursor_of(schema: SchemaModel, answer: JsonDoc) -> Option<Seq<char>> {
    match parsed_page_list(schema, answer) {
        Ok((_, cursor)) => cursor,
        Err(_) => None,
    }
}

/// How many of `answers` a retrieval reads that stood at `start`: those that come
/// while a request is due.
pub open spec fn answers_read(schema: SchemaModel, start: Progress, answers: Seq<JsonDoc>) -> nat
    decreases answers.len(),
{
    if answers.len() == 0 {
        0
    } else {
        answers_read(schema, start, answers.drop_last()) + if progress_through(
            schema,
            start,
            answers.drop_last(),
        ).is_due() {
            1nat
        } else {
            0nat
        }
    }
}

/// While every answer is accepted and gives a cursor, a retrieval without a
/// ceiling goes on: after each answer the next request is due, with the cursor
/// of that answer, and the pages of all answers so far are held in their order.
pub proof fn lemma_retrieval_goes_on(schema: SchemaModel, answers: Seq<JsonDoc>)
    requires
        answers.len() > 0,
        forall|k: int|
            0 <= k < answers.len() ==> parsed_page_list(schema, #[trigger] answers[k]) is Ok
                && cursor_of(schema, answers[k]) is Some,
    ensures
        progress_through(schema, progress_at_start(None), answers) == (Progress {
            state: FetchStateModel::Continue(cursor_of(schema, answers.last())),
            pages: pages_through(schema, answers),
            remaining: None,
        }),
    decreases answers.len(),
{
    let front = answers.drop_last();
    assert(answers.last() == answers[answers.len() - 1]);
    if front.len() > 0 {
        assert forall|k: int| 0 <= k < front.len() implies parsed_page_list(
            schema,
            #[trigger] front[k],
        ) is Ok && cursor_of(schema, front[k]) is Some by {
            assert(front[k] == answers[k]);
        }
        lemma_retrieval_goes_on(schema, front);
    } else {
        assert(pages_through(schema, front) + parsed_page_list(schema, answers.last())->Ok_0.0
            =~= Seq::<PageModel>::empty() + parsed_page_list(schema, answers.last())->Ok_0.0);
    }
}

/// A retrieval without a ceiling whose answers are all accepted, and of which
/// the last and no other comes without a cursor, takes one request for each
/// answer and ends with the pages of all answers, in the order in which they came:
/// before each answer a request is due, the first without a cursor and every
/// other with the cursor of the answer before; after the last none is due.
pub proof fn lemma_retrieval_collects_all(schema: SchemaModel, answers: Seq<JsonDoc>)
    requires
        answers.len() > 0,
        forall|k: int| 0 <= k < answers.len() ==> parsed_page_list(schema, #[trigger] answers[k]) is Ok,
        forall|k: int|
            0 <= k < answers.len() - 1 ==> cursor_of(schema, #[trigger] answers[k]) is Some,
        cursor_of(schema, answers.last()) is None,
    ensures
        progress_through(schema, progress_at_start(None), answers) == (Progress {
            state: FetchStateModel::Done,
            pages: pages_through(schema, answers),
            remaining: None,
        }),
        forall|n: int|
            0 < n < answers.len() ==> (#[trigger] progress_through(
                schema,
                progress_at_start(None),
                answers.take(n),
            )).state == FetchStateModel::Continue(cursor_of(schema, answers[n - 1])),
        progress_through(schema, progress_at_start(None), answers.take(0)).state
            == FetchStateModel::Continue(None),
{
    let start = progress_at_start(None);
    assert forall|n: int| 0 < n < answers.len() implies (#[trigger] progress_through(
        schema,
        start,
        answers.take(n),
    )) == (Progress {
        state: FetchStateModel::Continue(cursor_of(schema, answers[n - 1])),
        pages: pages_through(schema, answers.take(n)),
        remaining: None,
    }) by {
        let seen = answers.take(n);
        assert forall|k: int| 0 <= k < seen.len() implies parsed_page_list(schema, #[trigger] seen[k])
            is Ok && cursor_of(schema, seen[k]) is Some by {
            assert(seen[k] == answers[k]);
        }
        lemma_retrieval_goes_on(schema, seen);
        assert(seen.last() == answers[n - 1]);
    }
    let front = answers.drop_last();
    let last = answers[answers.len() - 1];
    assert(answers.last() == last);
    assert(parsed_page_list(schema, last) is Ok);
    let before = progress_through(schema, start, front);
    if front.len() > 0 {
        assert(front == answers.take(answers.len() - 1));
        assert(progress_through(schema, start, answers.take(answers.len() - 1)).state
            == FetchStateModel::Continue(cursor_of(schema, answers[answers.len() - 2])));
        assert(before.pages == pages_through(schema, front));
    } else {
        assert(before == start);
        assert(pages_through(schema, front) =~= Seq::<PageModel>::empty());
    }
    assert(before.is_due());
    assert(progress_through(schema, start, answers) == progress_after(schema, before, last));
    assert(answers.take(0).len() == 0);
}

/// A retrieval with a ceiling reads no more answers than the ceiling allows,
/// whatever the answers are and however many are given to it.
pub proof fn lemma_ceiling_bounds_answers(
    schema: SchemaModel,
    start: Progress,
    answers: Seq<JsonDoc>,
)
    requires
        start.remaining is Some,
    ensures
        progress_through(schema, start, answers).remaining is Some,
        answers_read(schema, start, answers) + progress_through(
            schema,
            start,
            answers,
        ).remaining->0 == start.remaining->0,
        answers_read(schema, start, answers) <= start.remaining->0,
    decreases answers.len(),
{
    if answers.len() > 0 {
        lemma_ceiling_bounds_answers(schema, start, answers.drop_last());
    }
}

} // verus!
