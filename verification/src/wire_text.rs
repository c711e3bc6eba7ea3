use crate::text::{decimal_digits, decimal_text};
use vstd::prelude::*;
use vstd::string::*;

verus! {

/// The JSON string literal that serde_json writes for a text: the text
/// between double quotes, with the characters that JSON cannot hold as they
/// are written as escapes.
pub uninterp spec fn json_string_text(text: Seq<char>) -> Seq<char>;

/// The serialization that the url crate gives an address after parsing it,
/// or `None` where the crate does not take the text for an absolute URL.
pub uninterp spec fn url_serialization(input: Seq<char>) -> Option<Seq<char>>;

/// The url crate's reason for rejecting a text (`url::ParseError`), carried
/// through unread.
#[verifier::external_type_specification]
#[verifier::external_body]
pub struct ExUrlParseError(url::ParseError);

/// Has serde_json write `text` as a JSON string value, in its compact form
/// (`Value::String(..).to_string()`). Trusted: the result is the crate's
/// string literal for `text`, a function of `text` alone.
#[verifier::external_body]
fn json_string(text: &str) -> (out: String)
    ensures
        out@ == json_string_text(text@),
{
    serde_json::Value::String(text.to_owned()).to_string()
}

/// Has the url crate parse `input` (`Url::parse`) and hands back the
/// serialization of the parsed address. Trusted: the outcome is a function
/// of `input` alone, `Ok` with the crate's serialization or `Err` where the
/// crate rejects the text.
#[verifier::external_body]
fn parse_url(input: &str) -> (parsed: Result<String, url::ParseError>)
    ensures
        parsed matches Ok(address) ==> url_serialization(input@) == Some(address@),
        parsed is Err ==> url_serialization(input@) is None,
{
    url::Url::parse(input).map(String::from)
}

/// The address to connect to, as the url crate writes `raw` once parsed;
/// `None` where `raw` is no absolute URL.
pub fn stream_endpoint(raw: &str) -> (endpoint: Option<String>)
    ensures
        endpoint is Some <==> url_serialization(raw@) is Some,
        endpoint matches Some(address) ==> url_serialization(raw@) == Some(address@),
{
    match parse_url(raw) {
        Ok(address) => Some(address),
        Err(_) => None,
    }
}

/// The name of the update stream of `symbol` at `depth` levels a side.
pub open spec fn topic_text(symbol: Seq<char>, depth: nat) -> Seq<char> {
    "orderbookupdate@"@ + symbol + "@"@ + decimal_digits(depth)
}

/// Writes the name of the update stream of `symbol` at `depth` levels a side.
pub fn subscription_topic(symbol: &str, depth: u64) -> (topic: String)
    ensures
        topic@ == topic_text(symbol@, depth as nat),
{
    let mut topic = String::from_str("orderbookupdate@");
    topic.append(symbol);
    topic.append("@");
    topic.append(decimal_text(depth).as_str());
    topic
}

/// The subscription request: a JSON object with the command, the client's
/// identifier and the one topic asked for, keys in alphabetical order,
/// without white space.
pub open spec fn subscribe_text(client_id: Seq<char>, symbol: Seq<char>, depth: nat) -> Seq<char> {
    "{\"cmd\":"@ + json_string_text("SUBSCRIBE"@) + ",\"id\":"@ + json_string_text(client_id)
        + ",\"params\":["@ + json_string_text(topic_text(symbol, depth)) + "]}"@
}

/// Writes the request that subscribes `client_id` to the update stream of
/// `symbol` at `depth` levels a side. It is sent once, right after connecting.
pub fn subscribe_request(client_id: &str, symbol: &str, depth: u64) -> (request: String)
    ensures
        request@ == subscribe_text(client_id@, symbol@, depth as nat),
{
    let topic = subscription_topic(symbol, depth);
    let mut request = String::from_str("{\"cmd\":");
    request.append(json_string("SUBSCRIBE").as_str());
    request.append(",\"id\":");
    request.append(json_string(client_id).as_str());
    request.append(",\"params\":[");
    request.append(json_string(topic.as_str()).as_str());
    request.append("]}");
    request
}

/// The answer to a keepalive challenge: a JSON object with the command and
/// the time of the answer, keys in alphabetical order, without white space.
pub open spec fn pong_text(epoch_millis: nat) -> Seq<char> {
    "{\"cmd\":"@ + json_string_text("PONG"@) + ",\"ts\":"@ + decimal_digits(epoch_millis) + "}"@
}

/// Writes the answer to a keepalive challenge, stamped with the wall-clock
/// time `epoch_millis`, in milliseconds since the epoch.
pub fn pong_reply(epoch_millis: u64) -> (reply: String)
    ensures
        reply@ == pong_text(epoch_millis as nat),
{
    let mut reply = String::from_str("{\"cmd\":");
    reply.append(json_string("PONG").as_str());
    reply.append(",\"ts\":");
    reply.append(decimal_text(epoch_millis).as_str());
    reply.append("}");
    reply
}

/// The address of the snapshot of `symbol` at `depth` levels a side, below `base`.
pub open spec fn snapshot_url_text(base: Seq<char>, symbol: Seq<char>, depth: nat) -> Seq<char> {
    base + "?symbol="@ + symbol + "&maxLevel="@ + decimal_digits(depth)
}

/// Writes the address that the snapshot of `symbol` is fetched from.
pub fn snapshot_url(base: &str, symbol: &str, depth: u64) -> (address: String)
    ensures
        address@ == snapshot_url_text(base@, symbol@, depth as nat),
{
    let mut address = String::from_str(base);
    address.append("?symbol=");
    address.append(symbol);
    address.append("&maxLevel=");
    address.append(decimal_text(depth).as_str());
    address
}

} // verus!
