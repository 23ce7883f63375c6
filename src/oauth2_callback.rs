use vstd::prelude::*;

verus! {

/// What a query string decodes to as `application/x-www-form-urlencoded`
/// key/value pairs, in order, or `None` where decoding fails.
pub uninterp spec fn form_pairs_of(query: Seq<char>) -> Option<Seq<(Seq<char>, Seq<char>)>>;

/// The plain view of a list of decoded key/value pairs.
pub open spec fn pairs_view(pairs: Seq<(String, String)>) -> Seq<(Seq<char>, Seq<char>)> {
    pairs.map_values(|p: (String, String)| (p.0@, p.1@))
}

/// Relies on `serde_urlencoded::from_str` into `Vec<(String, String)>`: it
/// percent-decodes the query into its key/value pairs, in order; `None`
/// stands for its error.
#[verifier::external_body]
fn decode_form_pairs(query: &str) -> (r: Option<Vec<(String, String)>>)
    ensures
        match r {
            Some(v) => form_pairs_of(query@) == Some(pairs_view(v@)),
            None => form_pairs_of(query@) is None,
        },
{
    serde_urlencoded::from_str::<Vec<(String, String)>>(query).ok()
}

/// How often a key occurs among the pairs, and with which value if once.
pub ghost enum FieldSpec {
    Absent,
    Unique(Seq<char>),
    Repeated,
}

/// Executable counterpart of [`FieldSpec`].
pub enum Field {
    Absent,
    Unique(String),
    Repeated,
}

impl View for Field {
    type V = FieldSpec;

    open spec fn view(&self) -> FieldSpec {
        match self {
            Field::Absent => FieldSpec::Absent,
            Field::Unique(v) => FieldSpec::Unique(v@),
            Field::Repeated => FieldSpec::Repeated,
        }
    }
}

/// The occurrences of `key` among `pairs`: a structured payload accepts a
/// field that occurs at most once.
pub open spec fn field_spec(pairs: Seq<(Seq<char>, Seq<char>)>, key: Seq<char>) -> FieldSpec
    decreases pairs.len(),
{
    if pairs.len() == 0 {
        FieldSpec::Absent
    } else {
        let prev = field_spec(pairs.drop_last(), key);
        if pairs.last().0 == key {
            match prev {
                FieldSpec::Absent => FieldSpec::Unique(pairs.last().1),
                _ => FieldSpec::Repeated,
            }
        } else {
            prev
        }
    }
}

/// An optional field: absent gives `None`, once gives its value.
pub open spec fn optional_field(f: FieldSpec) -> Option<Seq<char>> {
    match f {
        FieldSpec::Unique(v) => Some(v),
        _ => None,
    }
}

/// A successful authorization redirect: the code to exchange and the
/// anti-forgery token that came back with it.
pub struct CodeGrantResponse {
    pub code: String,
    pub state: String,
}

/// An error redirect from the provider.
pub struct ErrorResponse {
    pub error: String,
    pub error_description: Option<String>,
    pub error_uri: Option<String>,
}

/// What the callback route made of the redirect it received.
pub enum CallbackOutcome {
    Success(CodeGrantResponse),
    ProviderError(ErrorResponse),
    Malformed,
}

pub ghost enum OutcomeView {
    Success { code: Seq<char>, state: Seq<char> },
    ProviderError { error: Seq<char>, description: Option<Seq<char>>, uri: Option<Seq<char>> },
    Malformed,
}

pub open spec fn opt_view(o: Option<String>) -> Option<Seq<char>> {
    match o {
        Some(s) => Some(s@),
        None => None,
    }
}

impl View for CallbackOutcome {
    type V = OutcomeView;

    open spec fn view(&self) -> OutcomeView {
        match self {
            CallbackOutcome::Success(r) => OutcomeView::Success { code: r.code@, state: r.state@ },
            CallbackOutcome::ProviderError(e) => OutcomeView::ProviderError {
                error: e.error@,
                description: opt_view(e.error_description),
                uri: opt_view(e.error_uri),
            },
            CallbackOutcome::Malformed => OutcomeView::Malformed,
        }
    }
}

/// The decoded pairs read first as a success payload (`code` and `state`),
/// then as an error payload (`error`, optional `error_description` and
/// `error_uri`); pairs of neither shape are malformed.
pub open spec fn outcome_of_pairs(pairs: Seq<(Seq<char>, Seq<char>)>) -> OutcomeView {
    let code = field_spec(pairs, "code"@);
    let state = field_spec(pairs, "state"@);
    let error = field_spec(pairs, "error"@);
    let description = field_spec(pairs, "error_description"@);
    let uri = field_spec(pairs, "error_uri"@);
    if code is Unique && state is Unique {
        OutcomeView::Success { code: code->Unique_0, state: state->Unique_0 }
    } else if error is Unique && !(description is Repeated) && !(uri is Repeated) {
        OutcomeView::ProviderError {
            error: error->Unique_0,
            description: optional_field(description),
            uri: optional_field(uri),
        }
    } else {
        OutcomeView::Malformed
    }
}

/// The outcome of a raw query string, or of its absence.
pub open spec fn query_outcome(query: Option<Seq<char>>) -> OutcomeView {
    match query {
        None => OutcomeView::Malformed,
        Some(q) => match form_pairs_of(q) {
            Some(pairs) => outcome_of_pairs(pairs),
            None => OutcomeView::Malformed,
        },
    }
}

/// Looks `key` up among the pairs.
pub fn find_field(pairs: &Vec<(String, String)>, key: &String) -> (r: Field)
    ensures
        r@ == field_spec(pairs_view(pairs@), key@),
{
    let ghost pv = pairs_view(pairs@);
    let mut found = Field::Absent;
    let mut i: usize = 0;
    while i < pairs.len()
        invariant
            i <= pairs.len(),
            pv == pairs_view(pairs@),
            found@ == field_spec(pv.subrange(0, i as int), key@),
        decreases pairs.len() - i,
    {
        proof {
            assert(pv.subrange(0, i + 1).drop_last() =~= pv.subrange(0, i as int));
        }
        if pairs[i].0 == *key {
            found = match found {
                Field::Absent => Field::Unique(pairs[i].1.clone()),
                _ => Field::Repeated,
            };
        }
        i = i + 1;
    }
    proof {
        assert(pv.subrange(0, pairs.len() as int) =~= pv);
    }
    found
}

fn optional_value(f: Field) -> (r: Option<String>)
    ensures
        opt_view(r) == optional_field(f@),
{
    match f {
        Field::Unique(v) => Some(v),
        _ => None,
    }
}

/// Reads decoded pairs as a callback payload: success shape first, then the
/// error shape, else malformed.
pub fn outcome_from_pairs(pairs: &Vec<(String, String)>) -> (r: CallbackOutcome)
    ensures
        r@ == outcome_of_pairs(pairs_view(pairs@)),
{
    let code = find_field(pairs, &String::from_str("code"));
    let state = find_field(pairs, &String::from_str("state"));
    match (code, state) {
        (Field::Unique(code), Field::Unique(state)) => {
            return CallbackOutcome::Success(CodeGrantResponse { code, state });
        },
        _ => {},
    }
    let error = find_field(pairs, &String::from_str("error"));
    let description = find_field(pairs, &String::from_str("error_description"));
    let uri = find_field(pairs, &String::from_str("error_uri"));
    match error {
        Field::Unique(error) => {
            if matches!(description, Field::Repeated) || matches!(uri, Field::Repeated) {
                CallbackOutcome::Malformed
            } else {
                CallbackOutcome::ProviderError(
                    ErrorResponse {
                        error,
                        error_description: optional_value(description),
                        error_uri: optional_value(uri),
                    },
                )
            }
        },
        _ => CallbackOutcome::Malformed,
    }
}

/// Reads the raw query string of a callback request; an absent query, one
/// that does not decode, or one of neither payload shape is malformed.
pub fn parse_callback_query(query: Option<&str>) -> (r: CallbackOutcome)
    ensures
        r@ == query_outcome(
            match query {
                Some(q) => Some(q@),
                None => None,
            },
        ),
{
    match query {
        None => CallbackOutcome::Malformed,
        Some(q) => match decode_form_pairs(q) {
            Some(pairs) => outcome_from_pairs(&pairs),
            None => CallbackOutcome::Malformed,
        },
    }
}

/// Text served on `/` while the listener waits.
pub const ROOT_TEXT: &'static str = "waiting for callback";

/// Text served on `/health`.
pub const HEALTH_TEXT: &'static str = "ok";

pub const LOGGED_IN_TITLE: &'static str = "You are now logged in.";

pub const LOGGED_IN_SUBHEADER: &'static str = "Please close the window.";

pub const FAILED_TITLE: &'static str = "Login failed.";

pub const INVALID_RESPONSE_SUBHEADER: &'static str = "Received invalid OAuth2 response.";

pub const PAGE_HEAD: &'static str = "<html>\n    <body>\n        <div style=\"\n            width: 100%;\n            top: 50%;\n            margin-top: 100px;\n            text-align: center;\n            font-family: sans-serif;\n        \">\n            <h1>";

pub const PAGE_MIDDLE: &'static str = "</h1>\n            <h2>";

pub const PAGE_TAIL: &'static str = "</h2>\n        </div>\n    </body>\n</html>";

/// The two lines of the acknowledgment page.
pub struct Headings {
    pub title: String,
    pub subheader: String,
}

impl Headings {
    pub fn new(title: &str, subheader: &str) -> (r: Headings)
        ensures
            r.title@ == title@,
            r.subheader@ == subheader@,
    {
        Headings { title: String::from_str(title), subheader: String::from_str(subheader) }
    }
}

/// The subheader for a provider error: the code, then `: description`,
/// then ` (uri)`, each where present.
pub open spec fn error_subheader(
    error: Seq<char>,
    description: Option<Seq<char>>,
    uri: Option<Seq<char>>,
) -> Seq<char> {
    let with_description = match description {
        Some(d) => error + ": "@ + d,
        None => error,
    };
    match uri {
        Some(u) => with_description + " ("@ + u + ")"@,
        None => with_description,
    }
}

/// Title and subheader acknowledging an outcome.
pub open spec fn headings_of(o: OutcomeView) -> (Seq<char>, Seq<char>) {
    match o {
        OutcomeView::Success { .. } => (LOGGED_IN_TITLE@, LOGGED_IN_SUBHEADER@),
        OutcomeView::ProviderError { error, description, uri } => (
            FAILED_TITLE@,
            error_subheader(error, description, uri),
        ),
        OutcomeView::Malformed => (FAILED_TITLE@, INVALID_RESPONSE_SUBHEADER@),
    }
}

/// The acknowledgment page around a title and a subheader.
pub open spec fn page_of(title: Seq<char>, subheader: Seq<char>) -> Seq<char> {
    PAGE_HEAD@ + title + PAGE_MIDDLE@ + subheader + PAGE_TAIL@
}

impl CallbackOutcome {
    /// The headings that acknowledge this outcome.
    pub fn to_headings(&self) -> (r: Headings)
        ensures
            (r.title@, r.subheader@) == headings_of(self@),
    {
        match self {
            CallbackOutcome::Success(_) => Headings::new(LOGGED_IN_TITLE, LOGGED_IN_SUBHEADER),
            CallbackOutcome::ProviderError(e) => e.to_headings(),
            CallbackOutcome::Malformed => Headings::new(FAILED_TITLE, INVALID_RESPONSE_SUBHEADER),
        }
    }
}

impl ErrorResponse {
    /// The headings that report this provider error.
    pub fn to_headings(&self) -> (r: Headings)
        ensures
            r.title@ == FAILED_TITLE@,
            r.subheader@ == error_subheader(
                self.error@,
                opt_view(self.error_description),
                opt_view(self.error_uri),
            ),
    {
        let mut subheader = self.error.clone();
        match &self.error_description {
            Some(d) => {
                subheader.append(": ");
                subheader.append(d.as_str());
            },
            None => {},
        }
        match &self.error_uri {
            Some(u) => {
                subheader.append(" (");
                subheader.append(u.as_str());
                subheader.append(")");
            },
            None => {},
        }
        Headings { title: String::from_str(FAILED_TITLE), subheader }
    }
}

/// Renders the acknowledgment page for the headings.
pub fn render_page(headings: &Headings) -> (r: String)
    ensures
        r@ == page_of(headings.title@, headings.subheader@),
{
    let mut page = String::from_str(PAGE_HEAD);
    page.append(headings.title.as_str());
    page.append(PAGE_MIDDLE);
    page.append(headings.subheader.as_str());
    page.append(PAGE_TAIL);
    page
}

/// Where a login attempt's callback listener stands.
enum Phase {
    Idle,
    Listening,
    Fulfilled(CallbackOutcome),
    Terminated,
}

pub ghost enum PhaseView {
    Idle,
    Listening,
    Fulfilled(OutcomeView),
    Terminated,
}

/// The shared state of one login attempt's callback listener: it records
/// the first callback it receives and no other.
pub struct Rendezvous {
    phase: Phase,
}

impl View for Rendezvous {
    type V = PhaseView;

    closed spec fn view(&self) -> PhaseView {
        match self.phase {
            Phase::Idle => PhaseView::Idle,
            Phase::Listening => PhaseView::Listening,
            Phase::Fulfilled(o) => PhaseView::Fulfilled(o@),
            Phase::Terminated => PhaseView::Terminated,
        }
    }
}

pub open spec fn query_view(query: Option<&str>) -> Option<Seq<char>> {
    match query {
        Some(q) => Some(q@),
        None => None,
    }
}

/// The phase after a callback request with the given query: a listening
/// rendezvous records its outcome, any other phase ignores the request.
pub open spec fn after_callback(p: PhaseView, query: Option<Seq<char>>) -> PhaseView {
    match p {
        PhaseView::Listening => PhaseView::Fulfilled(query_outcome(query)),
        _ => p,
    }
}

impl Rendezvous {
    pub fn new() -> (r: Rendezvous)
        ensures
            r@ == PhaseView::Idle,
    {
        Rendezvous { phase: Phase::Idle }
    }

    /// Marks the listener as bound; only an idle rendezvous starts listening.
    pub fn listen(&mut self)
        ensures
            final(self)@ == (match old(self)@ {
                PhaseView::Idle => PhaseView::Listening,
                p => p,
            }),
    {
        if matches!(self.phase, Phase::Idle) {
            self.phase = Phase::Listening;
        }
    }

    pub fn is_fulfilled(&self) -> (r: bool)
        ensures
            r == (self@ is Fulfilled),
    {
        matches!(self.phase, Phase::Fulfilled(_))
    }

    /// Handles a request on the callback route. While listening, the
    /// outcome is recorded and the acknowledgment page is returned, which
    /// is the signal to shut the listener down; in any other phase the
    /// request is refused with `None` and nothing changes.
    pub fn receive_callback(&mut self, query: Option<&str>) -> (r: Option<String>)
        ensures
            final(self)@ == after_callback(old(self)@, query_view(query)),
            r is Some <==> old(self)@ is Listening,
            r matches Some(page) ==> page@ == page_of(
                headings_of(query_outcome(query_view(query))).0,
                headings_of(query_outcome(query_view(query))).1,
            ),
    {
        if matches!(self.phase, Phase::Listening) {
            let outcome = parse_callback_query(query);
            let headings = outcome.to_headings();
            let page = render_page(&headings);
            self.phase = Phase::Fulfilled(outcome);
            Some(page)
        } else {
            None
        }
    }

    /// Hands the recorded outcome to the waiting caller, once: a fulfilled
    /// rendezvous terminates, any other phase gives `None`.
    pub fn take_outcome(&mut self) -> (r: Option<CallbackOutcome>)
        ensures
            match old(self)@ {
                PhaseView::Fulfilled(o) => final(self)@ == PhaseView::Terminated && (r matches Some(
                    x) && x@ == o),
                _ => final(self)@ == old(self)@ && r is None,
            },
    {
        if matches!(self.phase, Phase::Fulfilled(_)) {
            let mut phase = Phase::Terminated;
            std::mem::swap(&mut self.phase, &mut phase);
            match phase {
                Phase::Fulfilled(o) => Some(o),
                _ => None,
            }
        } else {
            None
        }
    }
}

/// A listening rendezvous records the first callback's outcome, and no
/// later callback request changes what it recorded.
pub proof fn lemma_callback_single_shot(
    p: PhaseView,
    first: Option<Seq<char>>,
    later: Option<Seq<char>>,
)
    requires
        p is Listening,
    ensures
        after_callback(p, first) == PhaseView::Fulfilled(query_outcome(first)),
        after_callback(after_callback(p, first), later) == after_callback(p, first),
{
}

/// A callback request without a query, or whose pairs carry neither payload
/// shape, is malformed.
pub proof fn lemma_malformed_query(query: Option<Seq<char>>)
    requires
        query matches Some(q) ==> (form_pairs_of(q) matches Some(pairs) ==> (
            field_spec(pairs, "code"@) is Absent && field_spec(pairs, "error"@) is Absent)),
    ensures
        query_outcome(query) == OutcomeView::Malformed,
{
}

} // verus!
