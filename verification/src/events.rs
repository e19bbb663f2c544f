//! The ledger event classifier: the query request shape, and the typed
//! decoding of the two event classes the engine listens for. Numeric event
//! fields arrive either as native integers or as digit strings and are
//! normalized to `u64`; the value is zero when the field is genuinely absent,
//! and — a choice inherited from the feed's tolerant decoding — zero as well
//! when a numeric string fails to parse.

use vstd::prelude::*;

use crate::jsonio::{
    doc_elements, doc_field, doc_text, doc_uint, json_as_array, json_as_str, json_as_u64,
    json_doc_of, json_get, json_parse, value_doc, JsonDoc,
};
use crate::strutil::{parse_dec_spec, parse_u64_digits, str_eq};

verus! {

/// The two event classes of the attestation contract.
#[allow(non_camel_case_types)]
#[derive(Copy, Clone, Debug, PartialEq, Eq, Structural)]
pub enum EventTopics {
    ENCRYPTED_INPUT_SUBMITTED,
    NEW_BATCH_CREATED,
}

/// A decoded input-submission event.
#[derive(Debug)]
pub struct EncryptedInputSubmittedEvent {
    pub batch_id: u64,
    pub submitter: String,
}

impl View for EncryptedInputSubmittedEvent {
    type V = (u64, Seq<char>);

    open spec fn view(&self) -> (u64, Seq<char>) {
        (self.batch_id, self.submitter@)
    }
}

/// A decoded batch-creation event.
#[derive(Copy, Clone, Debug, PartialEq, Eq, Structural)]
pub struct NewBatchCreatedEvent {
    pub batch_id: u64,
}

/// Normalization of a numeric event field: a native integer wins; otherwise
/// a digit string is parsed; anything else is zero.
pub open spec fn normalized_number(direct: Option<u64>, text: Option<Seq<char>>) -> u64 {
    match direct {
        Some(x) => x,
        None => match text {
            Some(s) => match parse_dec_spec(s) {
                Some(v) => v,
                None => 0,
            },
            None => 0,
        },
    }
}

/// Normalize a numeric event field from its two possible encodings.
pub fn normalize_event_number(direct: Option<u64>, text: Option<&str>) -> (r: u64)
    ensures
        r == normalized_number(
            direct,
            match text {
                Some(s) => Some(s@),
                None => None,
            },
        ),
{
    match direct {
        Some(x) => x,
        None => match text {
            Some(s) => match parse_u64_digits(s) {
                Some(v) => v,
                None => 0,
            },
            None => 0,
        },
    }
}

/// The `u64` an event field object carries under its "u64" key, in either
/// encoding, zero when absent.
pub open spec fn event_field_u64_spec(field: JsonDoc) -> u64 {
    match doc_field(field, "u64"@) {
        Some(inner) => normalized_number(doc_uint(inner), doc_text(inner)),
        None => 0,
    }
}

/// The text an event field object carries under its "string" key, empty when
/// absent or not a string.
pub open spec fn event_field_string_spec(field: JsonDoc) -> Seq<char> {
    match doc_field(field, "string"@) {
        Some(inner) => match doc_text(inner) {
            Some(s) => s,
            None => Seq::empty(),
        },
        None => Seq::empty(),
    }
}

/// The topic text naming an event class.
pub open spec fn topic_label(t: EventTopics) -> Seq<char> {
    match t {
        EventTopics::ENCRYPTED_INPUT_SUBMITTED => "ENCRYPTED_INPUT_SUBMITTED"@,
        EventTopics::NEW_BATCH_CREATED => "NEW_BATCH_CREATED"@,
    }
}

/// The string content of an event's first topic, `None` when the event has
/// no such topic shape.
pub open spec fn event_topic(e: JsonDoc) -> Option<Seq<char>> {
    match doc_field(e, "topicJson"@) {
        Some(topics) => match doc_elements(topics) {
            Some(ts) => if ts.len() > 0 {
                match doc_field(ts[0], "string"@) {
                    Some(s) => doc_text(s),
                    None => None,
                }
            } else {
                None
            },
            None => None,
        },
        None => None,
    }
}

/// Whether an event's first topic names the requested class.
pub open spec fn event_matches(e: JsonDoc, t: EventTopics) -> bool {
    event_topic(e) == Some(topic_label(t))
}

/// An event's payload fields (its `valueJson.vec` array), `None` when the
/// payload has another shape.
pub open spec fn event_fields(e: JsonDoc) -> Option<Seq<JsonDoc>> {
    match doc_field(e, "valueJson"@) {
        Some(vj) => match doc_field(vj, "vec"@) {
            Some(v) => doc_elements(v),
            None => None,
        },
        None => None,
    }
}

/// The event array of a query response (its `result.events`), empty when the
/// response has another shape.
pub open spec fn response_events(doc: JsonDoc) -> Seq<JsonDoc> {
    match doc_field(doc, "result"@) {
        Some(result) => match doc_field(result, "events"@) {
            Some(ev) => match doc_elements(ev) {
                Some(elems) => elems,
                None => Seq::empty(),
            },
            None => Seq::empty(),
        },
        None => Seq::empty(),
    }
}

/// The decoded input-submission events of an event array, in order: of each
/// event whose first topic matches the class and whose payload holds at
/// least two fields, the normalized batch id and the submitter text.
pub open spec fn input_events_of(events: Seq<JsonDoc>) -> Seq<(u64, Seq<char>)>
    decreases events.len(),
{
    if events.len() == 0 {
        Seq::empty()
    } else {
        let rest = input_events_of(events.drop_last());
        let e = events.last();
        if event_matches(e, EventTopics::ENCRYPTED_INPUT_SUBMITTED) {
            match event_fields(e) {
                Some(fs) => if fs.len() >= 2 {
                    rest.push((event_field_u64_spec(fs[0]), event_field_string_spec(fs[1])))
                } else {
                    rest
                },
                None => rest,
            }
        } else {
            rest
        }
    }
}

/// The decoded batch-creation ids of an event array, in order: of each event
/// whose first topic matches the class and whose payload holds at least one
/// field, the normalized batch id.
pub open spec fn batch_events_of(events: Seq<JsonDoc>) -> Seq<u64>
    decreases events.len(),
{
    if events.len() == 0 {
        Seq::empty()
    } else {
        let rest = batch_events_of(events.drop_last());
        let e = events.last();
        if event_matches(e, EventTopics::NEW_BATCH_CREATED) {
            match event_fields(e) {
                Some(fs) => if fs.len() >= 1 {
                    rest.push(event_field_u64_spec(fs[0]))
                } else {
                    rest
                },
                None => rest,
            }
        } else {
            rest
        }
    }
}

/// The views of decoded input-submission events.
pub open spec fn input_event_views(s: Seq<EncryptedInputSubmittedEvent>) -> Seq<(u64, Seq<char>)> {
    s.map_values(|e: EncryptedInputSubmittedEvent| e@)
}

/// The ids of decoded batch-creation events.
pub open spec fn batch_event_ids(s: Seq<NewBatchCreatedEvent>) -> Seq<u64> {
    s.map_values(|e: NewBatchCreatedEvent| e.batch_id)
}

/// The `u64` carried by an event field object under its "u64" key, in either
/// encoding, zero when absent.
fn event_field_u64(field: &serde_json::Value) -> (r: u64)
    ensures
        r == event_field_u64_spec(value_doc(*field)),
{
    match json_get(field, "u64") {
        Some(inner) => {
            let direct = json_as_u64(inner);
            let text = json_as_str(inner);
            proof {
                assert(doc_field(value_doc(*field), "u64"@) == Some(value_doc(*inner)));
                assert(direct == doc_uint(value_doc(*inner)));
                assert(match text {
                    Some(s) => Some(s@),
                    None => None,
                } == doc_text(value_doc(*inner)));
            }
            normalize_event_number(direct, text)
        },
        None => {
            assert(doc_field(value_doc(*field), "u64"@) is None);
            0
        },
    }
}

/// The string carried by an event field object under its "string" key, empty
/// when absent.
fn event_field_string(field: &serde_json::Value) -> (r: String)
    ensures
        r@ == event_field_string_spec(value_doc(*field)),
{
    match json_get(field, "string") {
        Some(inner) => {
            proof {
                assert(doc_field(value_doc(*field), "string"@) == Some(value_doc(*inner)));
            }
            match json_as_str(inner) {
                Some(s) => String::from_str(s),
                None => String::new(),
            }
        },
        None => {
            assert(doc_field(value_doc(*field), "string"@) is None);
            String::new()
        },
    }
}

/// Decode an input-submission event from its value fields: the normalized
/// batch id, then the submitter. Succeeds exactly on two or more fields.
pub fn parse_encrypted_input_event(event_arr: &Vec<serde_json::Value>) -> (r: Option<
    EncryptedInputSubmittedEvent,
>)
    ensures
        r is Some <==> event_arr@.len() >= 2,
        r matches Some(e) ==> e.batch_id == event_field_u64_spec(value_doc(event_arr@[0]))
            && e.submitter@ == event_field_string_spec(value_doc(event_arr@[1])),
{
    if event_arr.len() >= 2 {
        let batch_id = event_field_u64(&event_arr[0]);
        let submitter = event_field_string(&event_arr[1]);
        Some(EncryptedInputSubmittedEvent { batch_id, submitter })
    } else {
        None
    }
}

/// Decode a batch-creation event from its value fields: the normalized new
/// batch id. Succeeds exactly on one or more fields.
pub fn parse_new_batch_event(event_arr: &Vec<serde_json::Value>) -> (r: Option<
    NewBatchCreatedEvent,
>)
    ensures
        r is Some <==> event_arr@.len() >= 1,
        r matches Some(e) ==> e.batch_id == event_field_u64_spec(value_doc(event_arr@[0])),
{
    if event_arr.len() >= 1 {
        let batch_id = event_field_u64(&event_arr[0]);
        Some(NewBatchCreatedEvent { batch_id })
    } else {
        None
    }
}

/// The string content of an event's first topic.
fn event_topic_string<'a>(event: &'a serde_json::Value) -> (r: Option<&'a str>)
    ensures
        r matches Some(t) ==> event_topic(value_doc(*event)) == Some(t@),
        r is None ==> event_topic(value_doc(*event)) is None,
{
    match json_get(event, "topicJson") {
        Some(topics_value) => match json_as_array(topics_value) {
            Some(topics) => if topics.len() > 0 {
                proof {
                    assert(doc_elements(value_doc(*topics_value)) matches Some(ts)
                        && value_doc(topics@[0]) == ts[0]);
                }
                match json_get(&topics[0], "string") {
                    Some(s) => json_as_str(s),
                    None => None,
                }
            } else {
                None
            },
            None => None,
        },
        None => None,
    }
}

/// An event's payload fields, `None` when the payload has another shape.
fn event_value_fields<'a>(event: &'a serde_json::Value) -> (r: Option<
    &'a Vec<serde_json::Value>,
>)
    ensures
        r is Some <==> event_fields(value_doc(*event)) is Some,
        r matches Some(fields) ==> (event_fields(value_doc(*event)) matches Some(fs)
            && fields@.len() == fs.len() && forall|k: int|
            0 <= k < fs.len() ==> value_doc(#[trigger] fields@[k]) == fs[k]),
{
    match json_get(event, "valueJson") {
        Some(value_json) => match json_get(value_json, "vec") {
            Some(vec_value) => json_as_array(vec_value),
            None => None,
        },
        None => None,
    }
}

/// Classify the events of a ledger query response, keeping only those whose
/// first topic names the requested class, decoded in response order. `None`
/// exactly when the response is not valid JSON (a retryable transport fault,
/// distinct from "no events"); an event of another class, or one with a
/// malformed payload, is dropped without disturbing the rest.
pub fn process_events(response_body: &str, read_event: &EventTopics) -> (r: Option<
    (Vec<EncryptedInputSubmittedEvent>, Vec<NewBatchCreatedEvent>),
>)
    ensures
        r is Some <==> json_doc_of(response_body@) is Some,
        r matches Some(lists) ==> (json_doc_of(response_body@) matches Some(doc) && (read_event
            matches EventTopics::ENCRYPTED_INPUT_SUBMITTED ==> input_event_views(lists.0@)
            == input_events_of(response_events(doc)) && lists.1@.len() == 0) && (read_event
            matches EventTopics::NEW_BATCH_CREATED ==> batch_event_ids(lists.1@)
            == batch_events_of(response_events(doc)) && lists.0@.len() == 0)),
{
    let parsed = match json_parse(response_body) {
        Some(v) => v,
        None => {
            return None;
        },
    };
    let ghost doc = value_doc(parsed);
    let ghost evs = response_events(doc);
    let mut encrypted_input_events: Vec<EncryptedInputSubmittedEvent> = Vec::new();
    let mut new_batch_events: Vec<NewBatchCreatedEvent> = Vec::new();
    let events = match json_get(&parsed, "result") {
        Some(result) => match json_get(result, "events") {
            Some(events_value) => match json_as_array(events_value) {
                Some(events) => events,
                None => {
                    proof {
                        lemma_classified_empty(evs);
                    }
                    return Some((encrypted_input_events, new_batch_events));
                },
            },
            None => {
                proof {
                    lemma_classified_empty(evs);
                }
                return Some((encrypted_input_events, new_batch_events));
            },
        },
        None => {
            proof {
                lemma_classified_empty(evs);
            }
            return Some((encrypted_input_events, new_batch_events));
        },
    };
    let n = events.len();
    let mut i: usize = 0;
    proof {
        assert(events@.len() == evs.len());
        assert(input_event_views(encrypted_input_events@) =~= input_events_of(evs.take(0)));
        assert(batch_event_ids(new_batch_events@) =~= batch_events_of(evs.take(0)));
    }
    #[verifier::loop_isolation(false)]
    while i < n
        invariant
            0 <= i <= n,
            read_event matches EventTopics::ENCRYPTED_INPUT_SUBMITTED ==> input_event_views(
                encrypted_input_events@,
            ) == input_events_of(evs.take(i as int)) && new_batch_events@.len() == 0,
            read_event matches EventTopics::NEW_BATCH_CREATED ==> batch_event_ids(
                new_batch_events@,
            ) == batch_events_of(evs.take(i as int)) && encrypted_input_events@.len() == 0,
        decreases n - i,
    {
        let event = &events[i];
        let ghost ed = evs[i as int];
        proof {
            assert(value_doc(*event) == ed);
        }
        let topic_string = event_topic_string(event);
        let should_process = match topic_string {
            Some(t) => match read_event {
                EventTopics::ENCRYPTED_INPUT_SUBMITTED => str_eq(t, "ENCRYPTED_INPUT_SUBMITTED"),
                EventTopics::NEW_BATCH_CREATED => str_eq(t, "NEW_BATCH_CREATED"),
            },
            None => false,
        };
        proof {
            assert(should_process == event_matches(ed, *read_event));
        }
        if should_process {
            match event_value_fields(event) {
                Some(fields) => match read_event {
                    EventTopics::ENCRYPTED_INPUT_SUBMITTED => {
                        match parse_encrypted_input_event(fields) {
                            Some(parsed_event) => {
                                let ghost before = encrypted_input_events@;
                                let ghost pair = parsed_event@;
                                encrypted_input_events.push(parsed_event);
                                proof {
                                    assert(input_event_views(encrypted_input_events@)
                                        =~= input_event_views(before).push(pair));
                                }
                            },
                            None => {},
                        }
                    },
                    EventTopics::NEW_BATCH_CREATED => {
                        match parse_new_batch_event(fields) {
                            Some(parsed_event) => {
                                let ghost before = new_batch_events@;
                                let ghost id = parsed_event.batch_id;
                                new_batch_events.push(parsed_event);
                                proof {
                                    assert(batch_event_ids(new_batch_events@) =~= batch_event_ids(
                                        before,
                                    ).push(id));
                                }
                            },
                            None => {},
                        }
                    },
                },
                None => {},
            }
        }
        proof {
            assert(evs.take(i + 1).drop_last() =~= evs.take(i as int));
            assert(evs.take(i + 1).last() == ed);
        }
        i += 1;
    }
    proof {
        assert(evs.take(n as int) =~= evs);
    }
    Some((encrypted_input_events, new_batch_events))
}

/// An empty event array classifies to empty lists.
proof fn lemma_classified_empty(evs: Seq<JsonDoc>)
    requires
        evs.len() == 0,
    ensures
        input_events_of(evs) =~= Seq::<(u64, Seq<char>)>::empty(),
        batch_events_of(evs) =~= Seq::<u64>::empty(),
{
}

/// The request sent to the ledger's event query endpoint.
pub struct RpcRequest {
    pub jsonrpc: String,
    pub id: u128,
    pub method: String,
    pub params: RpcParams,
}

/// Query parameters: the starting position, the contract filters, and the
/// requested value encoding.
pub struct RpcParams {
    pub start_ledger: u64,
    pub filters: Vec<EventFilter>,
    pub xdr_format: String,
}

/// One contract filter of an event query.
pub struct EventFilter {
    pub filter_type: String,
    pub contract_ids: Vec<String>,
    pub topics: Vec<Vec<String>>,
}

/// The fixed id carried by every event query of this engine.
pub const RPC_REQUEST_ID: u128 = 8675309;

/// Build the event query for one contract from `start_ledger` onward: a
/// `getEvents` call filtering by contract id alone — topics are filtered
/// client-side by [`process_events`].
pub fn create_rpc_request(contract_id: &str, start_ledger: u64) -> (r: RpcRequest)
    ensures
        r.jsonrpc@ == "2.0"@,
        r.id == RPC_REQUEST_ID,
        r.method@ == "getEvents"@,
        r.params.start_ledger == start_ledger,
        r.params.xdr_format@ == "json"@,
        r.params.filters@.len() == 1,
        r.params.filters@[0].filter_type@ == "contract"@,
        r.params.filters@[0].contract_ids@.len() == 1,
        r.params.filters@[0].contract_ids@[0]@ == contract_id@,
        r.params.filters@[0].topics@.len() == 0,
    {
    let mut contract_ids: Vec<String> = Vec::new();
    contract_ids.push(String::from_str(contract_id));
    let filter = EventFilter {
        filter_type: String::from_str("contract"),
        contract_ids,
        topics: Vec::new(),
    };
    let mut filters: Vec<EventFilter> = Vec::new();
    filters.push(filter);
    RpcRequest {
        jsonrpc: String::from_str("2.0"),
        id: RPC_REQUEST_ID,
        method: String::from_str("getEvents"),
        params: RpcParams { start_ledger, filters, xdr_format: String::from_str("json") },
    }
}

/// The fallback ledger height used while the real height is not queried.
pub fn get_latest_ledger() -> (r: u64)
    ensures
        r == 1000,
{
    1000
}

} // verus!
