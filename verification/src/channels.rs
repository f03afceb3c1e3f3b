//! Messaging channels: channel kinds and addresses, adapters, and routing an
//! outgoing message to the adapter of its address's scheme.
use vstd::prelude::*;
use crate::text::{concat2, owned, str_eq};

verus! {

/// A channel failure.
#[derive(Debug, Clone, PartialEq, Eq)]
pub enum ChannelError {
    Unknown(String),
    Adapter(String),
    NotConnected,
}

impl ChannelError {
    /// The failure's text.
    pub fn message(&self) -> (r: String)
        ensures
            r@ == match *self {
                ChannelError::Unknown(s) => "unknown channel: "@ + s@,
                ChannelError::Adapter(s) => "adapter error: "@ + s@,
                ChannelError::NotConnected => "not connected"@,
            },
    {
        match self {
            ChannelError::Unknown(s) => concat2("unknown channel: ", s.as_str()),
            ChannelError::Adapter(s) => concat2("adapter error: ", s.as_str()),
            ChannelError::NotConnected => String::from_str("not connected"),
        }
    }
}

/// The messaging channels.
#[derive(Debug, Clone, Copy, PartialEq, Eq, Hash, Structural)]
pub enum ChannelKind {
    Teams,
    Slack,
    Telegram,
    Whatsapp,
    Email,
    Cli,
}

/// The address scheme of each channel.
pub open spec fn scheme_of(k: ChannelKind) -> Seq<char> {
    match k {
        ChannelKind::Teams => "teams"@,
        ChannelKind::Slack => "slack"@,
        ChannelKind::Telegram => "telegram"@,
        ChannelKind::Whatsapp => "whatsapp"@,
        ChannelKind::Email => "email"@,
        ChannelKind::Cli => "cli"@,
    }
}

impl ChannelKind {
    /// The address scheme, e.g. `teams`.
    pub fn scheme(self) -> (r: &'static str)
        ensures
            r@ == scheme_of(self),
    {
        match self {
            ChannelKind::Teams => "teams",
            ChannelKind::Slack => "slack",
            ChannelKind::Telegram => "telegram",
            ChannelKind::Whatsapp => "whatsapp",
            ChannelKind::Email => "email",
            ChannelKind::Cli => "cli",
        }
    }
}

/// One user turn from a channel; `metadata` holds the adapter's JSON text.
#[derive(Debug, Clone, PartialEq, Eq)]
pub struct IncomingMessage {
    pub channel: ChannelKind,
    pub user_id: String,
    pub conversation_id: String,
    pub text: String,
    pub metadata: String,
    pub received_at_ms: u64,
}

/// One agent turn to an address `<scheme>:<conversation>`; `rich` holds optional
/// card JSON text.
#[derive(Debug, Clone, PartialEq, Eq)]
pub struct OutgoingMessage {
    pub address: String,
    pub text: String,
    pub rich: Option<String>,
}

impl OutgoingMessage {
    /// A plain-text message.
    pub fn text(address: String, text: String) -> (m: OutgoingMessage)
        ensures
            m.address == address,
            m.text == text,
            m.rich is None,
    {
        OutgoingMessage { address, text, rich: None }
    }
}

/// A channel's sending side; implemented per channel.
pub trait ChannelAdapter: Sized {
    /// The channel this adapter serves.
    spec fn channel(&self) -> ChannelKind;

    /// Sending `msg` from this adapter leaves it as `after` and answers `r`.
    spec fn sends(&self, msg: OutgoingMessage, after: Self, r: Result<(), ChannelError>) -> bool;

    fn kind(&self) -> (k: ChannelKind)
        ensures
            k == self.channel();

    fn send(&mut self, msg: OutgoingMessage) -> (r: Result<(), ChannelError>)
        ensures
            old(self).sends(msg, *final(self), r);
}

/// An in-process channel that keeps what it is sent.
pub struct CliChannel {
    pub sent: Vec<OutgoingMessage>,
}

impl CliChannel {
    /// A channel with nothing sent.
    pub fn new() -> (c: CliChannel)
        ensures
            c.sent@.len() == 0,
    {
        CliChannel { sent: Vec::new() }
    }

    /// The messages sent, oldest first.
    pub fn log(&self) -> (r: &Vec<OutgoingMessage>)
        ensures
            r@ == self.sent@,
    {
        &self.sent
    }

    /// The latest message sent.
    pub fn last(&self) -> (r: Option<&OutgoingMessage>)
        ensures
            self.sent@.len() == 0 ==> r is None,
            self.sent@.len() > 0 ==> r == Some(&self.sent@.last()),
    {
        if self.sent.len() == 0 {
            None
        } else {
            Some(&self.sent[self.sent.len() - 1])
        }
    }
}

impl ChannelAdapter for CliChannel {
    open spec fn channel(&self) -> ChannelKind {
        ChannelKind::Cli
    }

    /// The message is kept, after those sent before it, and the send succeeds.
    open spec fn sends(&self, msg: OutgoingMessage, after: Self, r: Result<(), ChannelError>) -> bool {
        after.sent@ == self.sent@.push(msg) && r is Ok
    }

    fn kind(&self) -> (k: ChannelKind) {
        ChannelKind::Cli
    }

    fn send(&mut self, msg: OutgoingMessage) -> (r: Result<(), ChannelError>) {
        self.sent.push(msg);
        Ok(())
    }
}

/// A Microsoft Teams channel not yet connected to the Bot Framework.
pub struct TeamsAdapter {
    pub bot_endpoint: String,
    pub tenant_id: String,
}

impl ChannelAdapter for TeamsAdapter {
    open spec fn channel(&self) -> ChannelKind {
        ChannelKind::Teams
    }

    /// Nothing is sent and nothing changes: the channel is not connected.
    open spec fn sends(&self, msg: OutgoingMessage, after: Self, r: Result<(), ChannelError>) -> bool {
        after == *self && r == Err::<(), ChannelError>(ChannelError::NotConnected)
    }

    fn kind(&self) -> (k: ChannelKind) {
        ChannelKind::Teams
    }

    fn send(&mut self, msg: OutgoingMessage) -> (r: Result<(), ChannelError>)
    {
        Err(ChannelError::NotConnected)
    }
}

/// A Slack channel not yet connected.
pub struct SlackAdapter {
    pub workspace: String,
    pub bot_token_env: String,
}

impl ChannelAdapter for SlackAdapter {
    open spec fn channel(&self) -> ChannelKind {
        ChannelKind::Slack
    }

    /// Nothing is sent and nothing changes: the channel is not connected.
    open spec fn sends(&self, msg: OutgoingMessage, after: Self, r: Result<(), ChannelError>) -> bool {
        after == *self && r == Err::<(), ChannelError>(ChannelError::NotConnected)
    }

    fn kind(&self) -> (k: ChannelKind) {
        ChannelKind::Slack
    }

    fn send(&mut self, msg: OutgoingMessage) -> (r: Result<(), ChannelError>)
    {
        Err(ChannelError::NotConnected)
    }
}

/// A Telegram channel not yet connected.
pub struct TelegramAdapter {
    pub bot_token_env: String,
}

impl ChannelAdapter for TelegramAdapter {
    open spec fn channel(&self) -> ChannelKind {
        ChannelKind::Telegram
    }

    /// Nothing is sent and nothing changes: the channel is not connected.
    open spec fn sends(&self, msg: OutgoingMessage, after: Self, r: Result<(), ChannelError>) -> bool {
        after == *self && r == Err::<(), ChannelError>(ChannelError::NotConnected)
    }

    fn kind(&self) -> (k: ChannelKind) {
        ChannelKind::Telegram
    }

    fn send(&mut self, msg: OutgoingMessage) -> (r: Result<(), ChannelError>)
    {
        Err(ChannelError::NotConnected)
    }
}

/// The scheme of an address: everything before its first `:` (all of it without one).
pub open spec fn scheme_part(address: Seq<char>) -> Seq<char> {
    let i = crate::text::first_index(address, |c: char| c == ':');
    if i >= 0 { address.take(i) } else { address }
}

/// The scheme of `address`.
pub fn address_scheme(address: &str) -> (r: String)
    ensures
        r@ == scheme_part(address@),
{
    let ghost f = |c: char| c == ':';
    let n = address.unicode_len();
    let mut i: usize = 0;
    while i < n
        invariant
            n == address@.len(),
            i <= n,
            f == (|c: char| c == ':'),
            crate::text::first_from(address@, f, 0) == crate::text::first_from(address@, f, i as int),
        decreases n - i,
    {
        if address.get_char(i) == ':' {
            assert(f(address@[i as int]));
            return owned(address.substring_char(0, i));
        }
        i = i + 1;
    }
    owned(address)
}

/// The adapter registered for scheme `s`.
pub open spec fn scheme_named<A>(s: Seq<char>) -> spec_fn((String, A)) -> bool {
    |e: (String, A)| e.0@ == s
}

/// `after` is `before` with `adapter` registered under its channel's scheme: an
/// entry of that scheme is replaced where it stands, otherwise one is appended.
pub open spec fn registered<A: ChannelAdapter>(before: Seq<(String, A)>, after: Seq<(String, A)>, adapter: A) -> bool {
    let s = scheme_of(adapter.channel());
    let i = crate::text::first_index(before, scheme_named::<A>(s));
    if i >= 0 {
        &&& after.len() == before.len()
        &&& after[i].0@ == s
        &&& after[i].1 == adapter
        &&& forall|k: int| 0 <= k < before.len() && k != i ==> after[k] == before[k]
    } else {
        &&& after.len() == before.len() + 1
        &&& after.last().0@ == s
        &&& after.last().1 == adapter
        &&& forall|k: int| 0 <= k < before.len() ==> after[k] == before[k]
    }
}

/// Adapters by scheme.
pub struct ChannelRegistry<A> {
    pub by_scheme: Vec<(String, A)>,
}

impl<A: ChannelAdapter> ChannelRegistry<A> {
    /// No adapters.
    pub fn new() -> (r: ChannelRegistry<A>)
        ensures
            r.by_scheme@.len() == 0,
    {
        ChannelRegistry { by_scheme: Vec::new() }
    }

    /// Registers `adapter` under its channel's scheme, replacing an adapter of the
    /// same scheme.
    pub fn register(&mut self, adapter: A)
        ensures
            registered(old(self).by_scheme@, final(self).by_scheme@, adapter),
    {
        let k = adapter.kind();
        let scheme = owned(k.scheme());
        let ghost f = scheme_named::<A>(scheme@);
        let mut i: usize = 0;
        while i < self.by_scheme.len()
            invariant
                i <= self.by_scheme@.len(),
                f == scheme_named::<A>(scheme@),
                scheme@ == scheme_of(adapter.channel()),
                *self == *old(self),
                crate::text::first_from(self.by_scheme@, f, 0) == crate::text::first_from(self.by_scheme@, f, i as int),
            decreases self.by_scheme@.len() - i,
        {
            if str_eq(self.by_scheme[i].0.as_str(), scheme.as_str()) {
                assert(f(self.by_scheme@[i as int]));
                self.by_scheme.set(i, (scheme, adapter));
                return;
            }
            i = i + 1;
        }
        self.by_scheme.push((scheme, adapter));
    }

    /// The registered schemes.
    pub fn schemes(&self) -> (r: Vec<String>)
        ensures
            r@.len() == self.by_scheme@.len(),
            forall|k: int| 0 <= k < r@.len() ==> (#[trigger] r@[k])@ == self.by_scheme@[k].0@,
    {
        let mut r: Vec<String> = Vec::new();
        let mut i: usize = 0;
        while i < self.by_scheme.len()
            invariant
                i <= self.by_scheme@.len(),
                r@.len() == i,
                forall|k: int| 0 <= k < i ==> (#[trigger] r@[k])@ == self.by_scheme@[k].0@,
            decreases self.by_scheme@.len() - i,
        {
            r.push(self.by_scheme[i].0.clone());
            i = i + 1;
        }
        r
    }

    /// Routes `msg` to the adapter of its address's scheme; an unregistered scheme is
    /// `Unknown`, naming the scheme. The first adapter of the scheme is sent `msg`
    /// as it is, and its answer is returned.
    pub fn send(&mut self, msg: OutgoingMessage) -> (r: Result<(), ChannelError>)
        ensures
            crate::text::first_index(old(self).by_scheme@, scheme_named::<A>(scheme_part(msg.address@))) < 0
                ==> (r matches Err(ChannelError::Unknown(s)) && s@ == scheme_part(msg.address@)),
            ({
                let i = crate::text::first_index(old(self).by_scheme@, scheme_named::<A>(scheme_part(msg.address@)));
                i >= 0 ==> old(self).by_scheme@[i].1.sends(msg, final(self).by_scheme@[i].1, r)
            }),
            final(self).by_scheme@.len() == old(self).by_scheme@.len(),
            forall|k: int| 0 <= k < final(self).by_scheme@.len() ==> (#[trigger] final(self).by_scheme@[k]).0
                == old(self).by_scheme@[k].0,
            forall|k: int| 0 <= k < final(self).by_scheme@.len() && k != crate::text::first_index(
                old(self).by_scheme@,
                scheme_named::<A>(scheme_part(msg.address@)),
            ) ==> #[trigger] final(self).by_scheme@[k] == old(self).by_scheme@[k],
    {
        let scheme = address_scheme(msg.address.as_str());
        let ghost f = scheme_named::<A>(scheme@);
        let mut i: usize = 0;
        while i < self.by_scheme.len()
            invariant
                i <= self.by_scheme@.len(),
                f == scheme_named::<A>(scheme@),
                scheme@ == scheme_part(msg.address@),
                *self == *old(self),
                crate::text::first_from(self.by_scheme@, f, 0) == crate::text::first_from(self.by_scheme@, f, i as int),
            decreases self.by_scheme@.len() - i,
        {
            if str_eq(self.by_scheme[i].0.as_str(), scheme.as_str()) {
                assert(f(self.by_scheme@[i as int]));
                let (key, mut adapter) = self.by_scheme.remove(i);
                let r = adapter.send(msg);
                self.by_scheme.insert(i, (key, adapter));
                proof {
                    assert(crate::text::first_index(old(self).by_scheme@, f) == i) by {
                        assert(crate::text::first_from(old(self).by_scheme@, f, i as int) == i);
                    }
                    assert forall|k: int| 0 <= k < self.by_scheme@.len() implies (#[trigger] self.by_scheme@[k]).0
                        == old(self).by_scheme@[k].0 by {
                        if k < i {
                        } else if k > i {
                        }
                    }
                    assert forall|k: int| 0 <= k < self.by_scheme@.len() && k != i implies #[trigger] self.by_scheme@[k]
                        == old(self).by_scheme@[k] by {
                        if k < i {
                        } else if k > i {
                        }
                    }
                }
                return r;
            }
            i = i + 1;
        }
        Err(ChannelError::Unknown(scheme))
    }
}

#[verifier::external_type_specification]
#[verifier::external_body]
pub struct ExSystemTime(std::time::SystemTime);

/// Calls `SystemTime::now`: the clock's reading, of which nothing is stated.
#[verifier::external_body]
fn system_now() -> std::time::SystemTime {
    std::time::SystemTime::now()
}

/// Calls `SystemTime::duration_since` with the Unix epoch: the time since it, or
/// `None` for a reading before it. Nothing is stated of which comes back.
#[verifier::external_body]
fn since_epoch(t: &std::time::SystemTime) -> Option<std::time::Duration> {
    t.duration_since(std::time::UNIX_EPOCH).ok()
}

/// Calls `Duration::as_millis`: the whole milliseconds of `d`, of which nothing is
/// stated here.
#[verifier::external_body]
pub(crate) fn duration_millis(d: &std::time::Duration) -> u128 {
    d.as_millis()
}

/// A reading in milliseconds as a `u64`: its low 64 bits; no reading is 0.
pub open spec fn millis_u64(reading: Option<u128>) -> u64 {
    match reading {
        Some(ms) => (ms % 0x1_0000_0000_0000_0000) as u64,
        None => 0,
    }
}

/// Turns a clock reading in milliseconds (none where the clock gave none, such as a
/// clock set before the Unix epoch) into a `u64` (see `millis_u64`).
pub fn epoch_millis(reading: Option<u128>) -> (r: u64)
    ensures
        r == millis_u64(reading),
{
    match reading {
        Some(ms) => {
            let r: u64 = #[verifier::truncate] (ms as u64);
            assert(r == (ms % 0x1_0000_0000_0000_0000) as u64) by (bit_vector)
                requires
                    r == ms as u64,
            ;
            r
        },
        None => 0,
    }
}

/// The clock's milliseconds since the Unix epoch, or none for a clock set before it.
fn epoch_reading() -> Option<u128> {
    match since_epoch(&system_now()) {
        Some(d) => Some(duration_millis(&d)),
        None => None,
    }
}

/// Milliseconds since the Unix epoch by the clock: the clock's reading turned into a
/// `u64` by `epoch_millis`.
pub fn now_ms() -> (r: u64)
    ensures
        exists|reading: Option<u128>| r == #[trigger] millis_u64(reading),
{
    let reading = epoch_reading();
    let r = epoch_millis(reading);
    assert(r == millis_u64(reading));
    r
}

/// An address built from a channel's scheme, a colon and a conversation id has
/// that channel's scheme.
pub proof fn law_address_scheme(k: ChannelKind, conversation: Seq<char>)
    ensures
        scheme_part(scheme_of(k) + ":"@ + conversation) == scheme_of(k),
{
    reveal_strlit(":");
    reveal_strlit("teams");
    reveal_strlit("slack");
    reveal_strlit("telegram");
    reveal_strlit("whatsapp");
    reveal_strlit("email");
    reveal_strlit("cli");
    let a = scheme_of(k) + ":"@ + conversation;
    let n = scheme_of(k).len() as int;
    assert(a[n] == ':');
    assert forall|m: int| 0 <= m < n implies !(|c: char| c == ':')(#[trigger] a[m]) by {
        assert(a[m] == scheme_of(k)[m]);
    }
    crate::text::lemma_first_at(a, |c: char| c == ':', 0, n);
    assert(a.take(n) =~= scheme_of(k));
}

/// Once an adapter is registered, its channel's scheme is routed: a message to that
/// scheme is never answered `Unknown`.
pub proof fn law_registered_scheme_routed<A: ChannelAdapter>(
    before: Seq<(String, A)>,
    after: Seq<(String, A)>,
    adapter: A,
)
    requires
        registered(before, after, adapter),
    ensures
        crate::text::first_index(after, scheme_named::<A>(scheme_of(adapter.channel()))) >= 0,
{
    let s = scheme_of(adapter.channel());
    let f = scheme_named::<A>(s);
    crate::text::lemma_first_from(before, f, 0);
    let i = crate::text::first_index(before, f);
    crate::text::lemma_first_from(after, f, 0);
    if i >= 0 {
        assert(f(after[i]));
        crate::text::lemma_not_before(after, f, 0, i);
    } else {
        assert(f(after[after.len() - 1]));
        crate::text::lemma_not_before(after, f, 0, after.len() - 1);
    }
}

} // verus!
