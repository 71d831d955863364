//! The chat and video-sharing protocol spoken with the player's server: the
//! user record, shared video descriptions, socket messages, the messages the
//! player sends, and how it reacts to the messages it receives on the share
//! socket.
use vstd::prelude::*;
use vstd::bytes::{spec_u64_from_le_bytes, spec_u64_to_le_bytes, u64_from_le_bytes, u64_to_le_bytes};
use crate::error::{PlayerError, PlayerResult};
use crate::text::text_eq;

verus! {

#[verifier::external_type_specification]
#[verifier::external_body]
pub struct ExUrl(reqwest::Url);

/// A name for the text `format!("{:?}", s)` gives for a string `s`: the string quoted,
/// with characters escaped as Rust's `Debug` does.
pub uninterp spec fn debug_text(s: Seq<char>) -> Seq<char>;

/// Calls `<str as Debug>::fmt` through `format!("{:?}", s)`. The contract claims only that
/// the text is a function of `s` (named `debug_text`).
#[verifier::external_body]
fn debug_quote(s: &str) -> (r: String)
    ensures
        r@ == debug_text(s@),
{
    format!("{:?}", s)
}

/// A name for whether `reqwest::Url::from_str` accepts a text (it follows the WHATWG URL
/// grammar, which this crate does not restate).
pub uninterp spec fn url_parses(s: Seq<char>) -> bool;

/// A URL parsed by `reqwest`, together with the text it was parsed from (its view).
pub struct ServerUrl {
    url: reqwest::Url,
    text: Ghost<Seq<char>>,
}

impl View for ServerUrl {
    type V = Seq<char>;

    closed spec fn view(&self) -> Seq<char> {
        self.text@
    }
}

impl ServerUrl {
    /// The parsed URL itself.
    pub closed spec fn parsed(self) -> reqwest::Url {
        self.url
    }

    /// The parsed URL.
    pub fn url(&self) -> (r: &reqwest::Url)
        ensures
            *r == self.parsed(),
    {
        &self.url
    }

    /// The parsed URL, taken out.
    pub fn into_url(self) -> (r: reqwest::Url)
        ensures
            r == self.parsed(),
    {
        self.url
    }
}

/// Calls `<reqwest::Url as FromStr>::from_str`. The contract claims that whether it
/// succeeds is a function of the text (named `url_parses`) and that the URL returned was
/// parsed from the text given; what the parsed URL holds is opaque here.
#[verifier::external_body]
fn parse_url(s: &str) -> (r: Option<ServerUrl>)
    ensures
        r is Some <==> url_parses(s@),
        r matches Some(u) ==> u@ == s@,
{
    match <reqwest::Url as std::str::FromStr>::from_str(s) {
        Ok(url) => Some(ServerUrl { url, text: Ghost(s@) }),
        Err(_) => None,
    }
}

/// The signed-in user as the server describes it.
#[derive(Debug, Clone)]
pub struct UserDetail {
    pub id: String,
    pub username: String,
    pub role: String,
}

impl UserDetail {
    /// The user before signing in: all fields empty.
    pub fn empty() -> (r: UserDetail)
        ensures
            r.id@ == Seq::<char>::empty(),
            r.username@ == Seq::<char>::empty(),
            r.role@ == Seq::<char>::empty(),
    {
        UserDetail { id: String::new(), username: String::new(), role: String::new() }
    }
}

/// A video offered for watching by a user.
#[derive(Debug, Clone)]
pub struct VideoDes {
    pub name: String,
    pub path: String,
    pub user_id: String,
}

/// A message on the chat or share socket.
#[derive(Debug, Clone)]
pub struct SocketMessage {
    pub sender_id: String,
    pub sender_name: String,
    pub receiver_type: String,
    pub receiver_id: String,
    pub msg_type: String,
    pub msg: Vec<u8>,
}

impl SocketMessage {
    pub fn new(
        sender_id: String,
        sender_name: String,
        receiver_type: String,
        receiver_id: String,
        msg_type: String,
        msg: Vec<u8>,
    ) -> (r: SocketMessage)
        ensures
            r.sender_id == sender_id,
            r.sender_name == sender_name,
            r.receiver_type == receiver_type,
            r.receiver_id == receiver_id,
            r.msg_type == msg_type,
            r.msg == msg,
    {
        SocketMessage { sender_id, sender_name, receiver_type, receiver_id, msg_type, msg }
    }

    pub fn get_name(&self) -> (r: &String)
        ensures
            *r == self.sender_name,
    {
        &self.sender_name
    }

    pub fn get_msg(&self) -> (r: &Vec<u8>)
        ensures
            *r == self.msg,
    {
        &self.msg
    }

    pub fn get_msg_type(&self) -> (r: &String)
        ensures
            *r == self.msg_type,
    {
        &self.msg_type
    }
}

/// The server endpoints the player talks to.
#[derive(Debug, Clone, Copy, PartialEq, Eq, Structural)]
pub enum ServerApi {
    Login,
    ChatMsg,
    ShareVideoSock,
}

/// The address of an endpoint.
pub open spec fn server_api_address(api: ServerApi) -> Seq<char> {
    match api {
        ServerApi::Login => "http://127.0.0.1:8536/user/guest_login"@,
        ServerApi::ChatMsg => "ws://127.0.0.1:8536/player/chat"@,
        ServerApi::ShareVideoSock => "ws://127.0.0.1:8536/player/share_sock"@,
    }
}

/// The error text reported when an endpoint's address does not parse.
pub open spec fn server_api_error(api: ServerApi) -> Seq<char> {
    match api {
        ServerApi::Login => "Login err"@,
        ServerApi::ChatMsg => "ChatMsg err"@,
        ServerApi::ShareVideoSock => "ShareVideoSock err"@,
    }
}

impl ServerApi {
    /// The address of the endpoint.
    pub fn address(self) -> (r: &'static str)
        ensures
            r@ == server_api_address(self),
    {
        match self {
            ServerApi::Login => "http://127.0.0.1:8536/user/guest_login",
            ServerApi::ChatMsg => "ws://127.0.0.1:8536/player/chat",
            ServerApi::ShareVideoSock => "ws://127.0.0.1:8536/player/share_sock",
        }
    }

    /// The endpoint's address parsed as a URL; when it does not parse, an internal error
    /// naming the endpoint.
    pub fn get_url_from_server_api(self) -> (r: PlayerResult<ServerUrl>)
        ensures
            r is Ok <==> url_parses(server_api_address(self)),
            r matches Ok(u) ==> u@ == server_api_address(self),
            r matches Err(PlayerError::Internal(s)) ==> s@ == server_api_error(self),
    {
        match parse_url(self.address()) {
            Some(url) => Ok(url),
            None => {
                let text = match self {
                    ServerApi::Login => "Login err",
                    ServerApi::ChatMsg => "ChatMsg err",
                    ServerApi::ShareVideoSock => "ShareVideoSock err",
                };
                Err(PlayerError::Internal(String::from_str(text)))
            },
        }
    }
}

/// Little-endian bytes of an `i64`, as `i64::to_le_bytes` gives them.
pub open spec fn i64_le_bytes(x: i64) -> Seq<u8> {
    spec_u64_to_le_bytes(x as u64)
}

/// The `i64` that eight little-endian bytes encode, as `i64::from_le_bytes` reads them.
pub open spec fn i64_from_le(bytes: Seq<u8>) -> i64 {
    spec_u64_from_le_bytes(bytes) as i64
}

/// Encodes an `i64` as eight little-endian bytes.
pub fn encode_i64_le(x: i64) -> (r: Vec<u8>)
    ensures
        r@ == i64_le_bytes(x),
        r@.len() == 8,
{
    u64_to_le_bytes(x as u64)
}

/// Decodes eight little-endian bytes as an `i64`; `None` unless there are exactly eight.
pub fn decode_i64_le(bytes: &[u8]) -> (r: Option<i64>)
    ensures
        r == (if bytes@.len() == 8 {
            Some(i64_from_le(bytes@))
        } else {
            None::<i64>
        }),
{
    if bytes.len() != 8 {
        None
    } else {
        Some(u64_from_le_bytes(bytes) as i64)
    }
}

/// Decoding the little-endian encoding of an `i64` gives it back.
pub proof fn lemma_le_roundtrip(x: i64)
    ensures
        i64_le_bytes(x).len() == 8,
        i64_from_le(i64_le_bytes(x)) == x,
{
    vstd::bytes::lemma_auto_spec_u64_to_from_le_bytes();
    assert(spec_u64_from_le_bytes(spec_u64_to_le_bytes(x as u64)) == x as u64);
    assert((x as u64) as i64 == x) by (bit_vector);
}

/// The bytes of a text, as `str::as_bytes` gives them (UTF-8).
pub open spec fn utf8_bytes(s: Seq<char>) -> Seq<u8> {
    vstd::utf8::encode_utf8(s)
}

/// A message from `sender` with the given receiver, type and body.
pub open spec fn from_user(
    m: SocketMessage,
    sender: UserDetail,
    receiver_type: Seq<char>,
    receiver_id: Seq<char>,
    msg_type: Seq<char>,
    body: Seq<u8>,
) -> bool {
    &&& m.sender_id@ == sender.id@
    &&& m.sender_name@ == sender.username@
    &&& m.receiver_type@ == receiver_type
    &&& m.receiver_id@ == receiver_id
    &&& m.msg_type@ == msg_type
    &&& m.msg@ == body
}

/// The message announcing a user on the chat socket: to the server, type `chat init`,
/// body `user <name> is now online` with the name quoted as `Debug` prints it.
pub fn chat_init_message(user: &UserDetail) -> (r: SocketMessage)
    ensures
        from_user(
            r,
            *user,
            "server"@,
            "server"@,
            "chat init"@,
            utf8_bytes("user "@ + debug_text(user.username@) + " is now online"@),
        ),
{
    let msg_str = String::from_str("user ").concat(debug_quote(user.username.as_str()).as_str()).concat(
        " is now online",
    );
    let body = msg_str.as_str().as_bytes_vec();
    SocketMessage::new(
        user.id.clone(),
        user.username.clone(),
        String::from_str("server"),
        String::from_str("server"),
        String::from_str("chat init"),
        body,
    )
}

/// The message announcing a user on the share socket: to the server, type `share init`,
/// empty body.
pub fn share_init_message(user: &UserDetail) -> (r: SocketMessage)
    ensures
        from_user(r, *user, "server"@, "server"@, "share init"@, Seq::<u8>::empty()),
{
    SocketMessage::new(
        user.id.clone(),
        user.username.clone(),
        String::from_str("server"),
        String::from_str("server"),
        String::from_str("share init"),
        Vec::new(),
    )
}

/// The message publishing one shared video: to the server with an empty receiver id,
/// type `video des`, the serialized description as body.
pub fn video_des_message(user: &UserDetail, description: &str) -> (r: SocketMessage)
    ensures
        from_user(r, *user, "server"@, Seq::<char>::empty(), "video des"@, utf8_bytes(description@)),
{
    SocketMessage::new(
        user.id.clone(),
        user.username.clone(),
        String::from_str("server"),
        String::new(),
        String::from_str("video des"),
        description.as_bytes_vec(),
    )
}

/// The message asking the owner of a shared video to stream it: to that user, type
/// `req video command`, the serialized description as body.
pub fn watch_request_message(user: &UserDetail, video: &VideoDes, description: &str) -> (r:
    SocketMessage)
    ensures
        from_user(
            r,
            *user,
            "user"@,
            video.user_id@,
            "req video command"@,
            utf8_bytes(description@),
        ),
{
    SocketMessage::new(
        user.id.clone(),
        user.username.clone(),
        String::from_str("user"),
        video.user_id.clone(),
        String::from_str("req video command"),
        description.as_bytes_vec(),
    )
}

/// The reply to a streaming request telling the requester the video's duration: sent as
/// the request's receiver to its sender, with an empty sender name, type
/// `duration of video to play`, the duration's little-endian bytes as body.
pub fn duration_message(request: &SocketMessage, duration: i64) -> (r: SocketMessage)
    ensures
        r.sender_id == request.receiver_id,
        r.sender_name@ == Seq::<char>::empty(),
        r.receiver_type@ == "user"@,
        r.receiver_id == request.sender_id,
        r.msg_type@ == "duration of video to play"@,
        r.msg@ == i64_le_bytes(duration),
{
    SocketMessage::new(
        request.receiver_id.clone(),
        String::new(),
        String::from_str("user"),
        request.sender_id.clone(),
        String::from_str("duration of video to play"),
        encode_i64_le(duration),
    )
}

/// What the player does with a message received on the share socket.
#[derive(Debug, Clone, PartialEq, Eq)]
pub enum ShareEvent {
    /// A video was offered: its serialized description.
    VideoOffered(Vec<u8>),
    /// Someone asks to watch one of this player's videos: stream it.
    StreamRequested,
    /// The duration of the video about to be received.
    Duration(i64),
    /// Nothing to do.
    Ignored,
}

/// The reaction to a message of type `msg_type` with body `body`.
pub open spec fn share_event_spec(msg_type: Seq<char>, body: Seq<u8>) -> ShareEvent {
    if msg_type == "video des"@ {
        ShareEvent::VideoOffered(body_vec(body))
    } else if msg_type == "req video command"@ {
        ShareEvent::StreamRequested
    } else if msg_type == "duration of video to play"@ && body.len() == 8 {
        ShareEvent::Duration(i64_from_le(body))
    } else {
        ShareEvent::Ignored
    }
}

/// Some vector with the given contents (vectors are compared by contents here).
pub open spec fn body_vec(body: Seq<u8>) -> Vec<u8> {
    choose|v: Vec<u8>| v@ == body
}

/// Classifies a message received on the share socket.
pub fn classify_share_message(message: &SocketMessage) -> (r: ShareEvent)
    ensures
        match share_event_spec(message.msg_type@, message.msg@) {
            ShareEvent::VideoOffered(b) => r matches ShareEvent::VideoOffered(v) && v@ == message.msg@,
            other => r == other,
        },
        message.msg_type@ == "video des"@ ==> (r matches ShareEvent::VideoOffered(v) && v@
            == message.msg@),
        message.msg_type@ == "req video command"@ ==> r == ShareEvent::StreamRequested,
        message.msg_type@ == "duration of video to play"@ && message.msg@.len() == 8 ==> r
            == ShareEvent::Duration(i64_from_le(message.msg@)),
        message.msg_type@ == "duration of video to play"@ && message.msg@.len() != 8 ==> r
            == ShareEvent::Ignored,
        message.msg_type@ != "video des"@ && message.msg_type@ != "req video command"@
            && message.msg_type@ != "duration of video to play"@ ==> r == ShareEvent::Ignored,
{
    proof {
        lemma_share_events_by_type(message.msg_type@, message.msg@);
    }
    let t = message.msg_type.as_str();
    proof {
        reveal_strlit("video des");
        reveal_strlit("req video command");
        reveal_strlit("duration of video to play");
    }
    if text_eq(t, "video des") {
        ShareEvent::VideoOffered(message.msg.clone())
    } else if text_eq(t, "req video command") {
        ShareEvent::StreamRequested
    } else if text_eq(t, "duration of video to play") {
        match decode_i64_le(message.msg.as_slice()) {
            Some(d) => ShareEvent::Duration(d),
            None => ShareEvent::Ignored,
        }
    } else {
        ShareEvent::Ignored
    }
}

/// Whether a cached copy of a message or video list must be refreshed: when its length
/// differs from the source's.
pub fn cache_needs_refresh(cached_len: usize, source_len: usize) -> (r: bool)
    ensures
        r == (cached_len != source_len),
{
    cached_len != source_len
}

} // verus!

verus! {

/// The duration a sharing player reports in its reply is the duration the watching player
/// takes over: classifying a `duration of video to play` message whose body is the
/// little-endian encoding of `d` yields `d`.
pub proof fn lemma_duration_reply_decodes(d: i64)
    ensures
        share_event_spec("duration of video to play"@, i64_le_bytes(d)) == ShareEvent::Duration(d),
{
    reveal_strlit("duration of video to play");
    reveal_strlit("video des");
    reveal_strlit("req video command");
    lemma_le_roundtrip(d);
    assert("duration of video to play"@ != "video des"@) by {
        assert("duration of video to play"@.len() != "video des"@.len());
    }
    assert("duration of video to play"@ != "req video command"@) by {
        assert("duration of video to play"@.len() != "req video command"@.len());
    }
}

/// How a message on the share socket is taken, by its type alone: a `video des` offers a
/// video; a `req video command` asks to stream, whatever its body; a
/// `duration of video to play` with an eight-byte body gives the duration it encodes (and is
/// dropped otherwise); any other type is dropped.
pub proof fn lemma_share_events_by_type(msg_type: Seq<char>, body: Seq<u8>)
    ensures
        msg_type == "video des"@ ==> share_event_spec(msg_type, body) is VideoOffered,
        msg_type == "req video command"@ ==> share_event_spec(msg_type, body) == ShareEvent::StreamRequested,
        msg_type == "duration of video to play"@ && body.len() == 8 ==> share_event_spec(msg_type, body)
            == ShareEvent::Duration(i64_from_le(body)),
        msg_type == "duration of video to play"@ && body.len() != 8 ==> share_event_spec(msg_type, body)
            == ShareEvent::Ignored,
        msg_type != "video des"@ && msg_type != "req video command"@ && msg_type
            != "duration of video to play"@ ==> share_event_spec(msg_type, body) == ShareEvent::Ignored,
{
    reveal_strlit("duration of video to play");
    reveal_strlit("video des");
    reveal_strlit("req video command");
    assert("duration of video to play"@ != "video des"@) by {
        assert("duration of video to play"@.len() != "video des"@.len());
    }
    assert("duration of video to play"@ != "req video command"@) by {
        assert("duration of video to play"@.len() != "req video command"@.len());
    }
    assert("req video command"@ != "video des"@) by {
        assert("req video command"@.len() != "video des"@.len());
    }
}

/// A watch request, as the player builds it, asks the owner to stream the video: classifying
/// any message from `user` to the video's owner of type `req video command`, whatever the
/// serialized description in its body, gives `StreamRequested`.
pub proof fn lemma_watch_request_asks_to_stream(
    m: SocketMessage,
    user: UserDetail,
    video: VideoDes,
    description: Seq<char>,
)
    requires
        from_user(m, user, "user"@, video.user_id@, "req video command"@, utf8_bytes(description)),
    ensures
        share_event_spec(m.msg_type@, m.msg@) == ShareEvent::StreamRequested,
{
    lemma_share_events_by_type(m.msg_type@, m.msg@);
}

} // verus!
