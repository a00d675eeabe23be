//! The host of a stream: who watches, who is about to, and what is done on each event. Waiting
//! for events and acting on them is left to the caller.
//!
//! Times are readings of one clock, in nanoseconds.

use crate::audio::AudioPacket;
use crate::encode;
use crate::encode::Packet;
use crate::signal::SignalError;
use crate::text;
use crate::viewer;
use crate::viewer::{News, Notice, Viewer, MAX_VIEWERS, RECOVER_GRACE};
use crate::webrtc;
use crate::webrtc::{Publisher, Sample};
use bytes::Bytes;
use vstd::prelude::*;

verus! {

/// The time between two looks at who wants to watch.
pub const SESSION_POLL: u64 = 2_000_000_000;

/// The time between two looks at who has left.
pub const LEAVE_POLL: u64 = 2_000_000_000;

/// The time between two packets of sound.
pub const AUDIO_TICK: u64 = 20_000_000;

/// The least time between two warnings that there are too many viewers.
pub const CAP_WARN_COOLDOWN: u64 = 30_000_000_000;

/// For how many milliseconds nothing is done after a picture could not be captured.
pub const CAPTURE_PAUSE: u64 = 1000;

/// How many packets of video are sent between two reports.
pub const REPORT_EVERY: u64 = 300;

/// A connection to be set up.
pub struct HandshakeRequest {
    pub link_id: String,
    pub session_id: String,
}

/// What came of setting a connection up.
pub enum HandshakeOutcome {
    Connected { session: String, publisher: Publisher, leave_baseline: u64 },
    Failed { session: String, reason: String },
}

impl HandshakeOutcome {
    /// What came of setting a connection up, and how often the viewer has left by now, if that
    /// can be told: where it cannot, it is taken never to have left.
    pub fn of(
        session: String,
        connected: Result<Publisher, SignalError>,
        count: Result<u64, SignalError>,
    ) -> (outcome: Self)
        ensures
            outcome.session() == session@,
            match connected {
                Ok(ready) => {
                    &&& outcome matches HandshakeOutcome::Connected {
                        session: named,
                        publisher,
                        leave_baseline,
                    }
                    &&& named@ == session@
                    &&& publisher == ready
                    &&& leave_baseline == match count {
                        Ok(count) => count,
                        Err(_) => 0,
                    }
                },
                Err(error) => {
                    &&& outcome matches HandshakeOutcome::Failed { session: named, reason }
                    &&& named@ == session@
                    &&& reason@ == error.text()
                },
            },
    {
        match connected {
            Ok(publisher) => {
                let leave_baseline: u64 = match count {
                    Ok(count) => count,
                    Err(_) => 0,
                };
                HandshakeOutcome::Connected { session, publisher, leave_baseline }
            },
            Err(error) => HandshakeOutcome::Failed { session, reason: error.message() },
        }
    }

    /// The session to which the connection was to be.
    pub open spec fn session(&self) -> Seq<char> {
        match self {
            HandshakeOutcome::Connected { session, .. } => session@,
            HandshakeOutcome::Failed { session, .. } => session@,
        }
    }
}

/// What becomes of a connection that was set up, or was not.
pub enum Admission {
    /// Somebody else watches.
    Watching(Notice),
    /// There is such a connection already, and this one is to be closed.
    Superfluous,
    /// There is no connection.
    Refused(Notice),
}

/// What is done about the sessions that are open on the link.
pub enum SessionStep {
    /// Connections are set up, and there may be something to report.
    Greet(Vec<HandshakeRequest>, Option<Notice>),
    /// A new link is asked for.
    Renew,
    /// There is a line to report.
    Warn(String),
}

/// What is done about a picture.
pub enum VideoStep {
    /// It is sent to everybody, and there may be a line to report.
    Send(MediaKind, Option<String>),
    /// There is nothing to send.
    Skip,
    /// There is a line to report, and nothing is done for so many milliseconds.
    Retry(String, u64),
    /// The stream ends, for this reason.
    Stop(String),
}

/// What is done about sound.
pub enum AudioStep {
    /// It is sent to everybody.
    Send(MediaKind),
    /// There is nothing to send.
    Skip,
    /// There is a line to report.
    Warn(String),
}

/// The state of a host.
pub struct Host {
    link_id: String,
    viewers: Vec<Viewer>,
    pending: Vec<String>,
    sent: u64,
    last_cap_warn: Option<u64>,
}

/// The sessions of viewers.
pub open spec fn sessions_of(viewers: Seq<Viewer>) -> Seq<Seq<char>> {
    viewers.map_values(|viewer: Viewer| viewer.session@)
}

/// The texts of strings.
pub open spec fn texts(strings: Seq<String>) -> Seq<Seq<char>> {
    strings.map_values(|string: String| string@)
}

/// The sessions that are not known yet, each once, in the order in which they are listed.
pub open spec fn fresh(listed: Seq<Seq<char>>, known: Set<Seq<char>>) -> Seq<Seq<char>>
    decreases listed.len(),
{
    if listed.len() == 0 {
        Seq::empty()
    } else {
        let before = fresh(listed.drop_last(), known);
        if known.contains(listed.last()) || before.contains(listed.last()) {
            before
        } else {
            before.push(listed.last())
        }
    }
}

/// What is fresh is what is listed and not known, and nothing is fresh twice.
pub proof fn fresh_is_listed_and_unknown(listed: Seq<Seq<char>>, known: Set<Seq<char>>)
    ensures
        fresh(listed, known).no_duplicates(),
        forall|session: Seq<char>| #[trigger]
            fresh(listed, known).contains(session) <==> listed.contains(session) && !known.contains(
                session,
            ),
    decreases listed.len(),
{
    if listed.len() > 0 {
        let before = fresh(listed.drop_last(), known);
        let all = fresh(listed, known);
        fresh_is_listed_and_unknown(listed.drop_last(), known);
        assert forall|session: Seq<char>| #[trigger] all.contains(session) implies listed.contains(
            session,
        ) && !known.contains(session) by {
            if before.contains(session) {
                let i = choose|i: int| 0 <= i < listed.drop_last().len() && listed.drop_last()[i]
                    == session;
                assert(listed[i] == session);
            } else {
                assert(session == listed.last());
                assert(listed[listed.len() - 1] == session);
            }
        }
        assert forall|session: Seq<char>|
            listed.contains(session) && !known.contains(session) implies #[trigger] all.contains(
            session,
        ) by {
            let i = choose|i: int| 0 <= i < listed.len() && listed[i] == session;
            if i < listed.len() - 1 {
                assert(listed.drop_last()[i] == session);
                assert(before.contains(session));
                let j = choose|j: int| 0 <= j < before.len() && before[j] == session;
                assert(all[j] == session);
            } else if !before.contains(session) {
                assert(all.last() == session);
                assert(all[all.len() - 1] == session);
            }
        }
    }
}

/// What two sequences hold in a row is what one of them holds.
proof fn contains_in_either(first: Seq<Seq<char>>, second: Seq<Seq<char>>, wanted: Seq<char>)
    ensures
        (first + second).contains(wanted) <==> first.contains(wanted) || second.contains(wanted),
{
    let all = first + second;
    if all.contains(wanted) {
        let i = choose|i: int| 0 <= i < all.len() && all[i] == wanted;
        if i < first.len() {
            assert(first[i] == wanted);
        } else {
            assert(second[i - first.len()] == wanted);
        }
    }
    if first.contains(wanted) {
        let i = choose|i: int| 0 <= i < first.len() && first[i] == wanted;
        assert(all[i] == wanted);
    }
    if second.contains(wanted) {
        let i = choose|i: int| 0 <= i < second.len() && second[i] == wanted;
        assert(all[first.len() + i] == wanted);
    }
}

/// Of things that are all different, those that stay after one was taken away are, and none of
/// them is the one.
proof fn removing_keeps_distinct(all: Seq<Seq<char>>, i: int)
    requires
        all.no_duplicates(),
        0 <= i < all.len(),
    ensures
        all.remove(i).no_duplicates(),
        forall|text: Seq<char>| #[trigger]
            all.remove(i).contains(text) <==> all.contains(text) && text != all[i],
{
    let rest = all.remove(i);
    assert forall|text: Seq<char>| #[trigger] rest.contains(text) implies all.contains(text) && text
        != all[i] by {
        let j = choose|j: int| 0 <= j < rest.len() && rest[j] == text;
        assert(all[if j < i { j } else { j + 1 }] == text);
    }
    assert forall|text: Seq<char>| all.contains(text) && text != all[i] implies #[trigger]
        rest.contains(text) by {
        let j = choose|j: int| 0 <= j < all.len() && all[j] == text;
        assert(rest[if j < i { j } else { j - 1 }] == text);
    }
}

/// Waiting for sessions that are not known keeps a host consistent.
proof fn waiting_grows(
    viewers: Seq<Viewer>,
    waiting: Seq<Seq<char>>,
    new: Seq<Seq<char>>,
    known: Set<Seq<char>>,
)
    requires
        waiting.no_duplicates(),
        new.no_duplicates(),
        known == sessions_of(viewers).to_set() + waiting.to_set(),
        forall|session: Seq<char>| #[trigger] new.contains(session) ==> !known.contains(session),
        forall|session: Seq<char>|
            !(#[trigger] sessions_of(viewers).contains(session) && waiting.contains(session)),
    ensures
        (waiting + new).no_duplicates(),
        forall|session: Seq<char>|
            !(#[trigger] sessions_of(viewers).contains(session) && (waiting + new).contains(
                session,
            )),
{
    let all = waiting + new;
    assert forall|session: Seq<char>| #[trigger]
        sessions_of(viewers).contains(session) implies !all.contains(session) by {
        assert(known.contains(session));
        contains_in_either(waiting, new, session);
    }
    assert forall|i: int, j: int| 0 <= i < j < all.len() implies all[i] != all[j] by {
        if i < waiting.len() && j >= waiting.len() {
            assert(new.contains(all[j])) by {
                assert(new[j - waiting.len()] == all[j]);
            }
            assert(waiting.to_set().contains(waiting[i]));
        }
    }
}

/// Whether a text is among strings.
fn holds(strings: &Vec<String>, wanted: &str) -> (found: bool)
    ensures
        found == texts(strings@).contains(wanted@),
{
    let mut i: usize = 0;
    while i < strings.len()
        invariant
            i <= strings@.len(),
            forall|j: int| 0 <= j < i ==> texts(strings@)[j] != wanted@,
        decreases strings@.len() - i,
    {
        if text::same_text(strings[i].as_str(), wanted) {
            assert(texts(strings@)[i as int] == wanted@);
            return true;
        }
        i = i + 1;
    }
    false
}

/// The sessions to be given up, once for each reason.
pub open spec fn departing(viewers: Seq<Viewer>, now: u64) -> Seq<Seq<char>>
    decreases viewers.len(),
{
    if viewers.len() == 0 {
        Seq::empty()
    } else {
        departing(viewers.drop_last(), now) + Seq::new(
            viewers.last().reasons(now),
            |k: int| viewers.last().session@,
        )
    }
}

/// What there is to say of viewers.
pub open spec fn all_news(viewers: Seq<Viewer>) -> Seq<(Seq<char>, News)>
    decreases viewers.len(),
{
    if viewers.len() == 0 {
        Seq::empty()
    } else {
        all_news(viewers.drop_last()) + viewer::about(viewers.last().session@, viewers.last().news())
    }
}

/// Whether a viewer has left, given how often it has by now, if that can be told. The server
/// forgets viewers that are gone.
pub open spec fn has_left(viewer: Viewer, count: Result<u64, SignalError>) -> bool {
    match count {
        Ok(count) => count > viewer.leave_baseline,
        Err(error) => error.status == Some(404u16),
    }
}

/// The sessions of those who have left.
pub open spec fn leavers(viewers: Seq<Viewer>, counts: Seq<Result<u64, SignalError>>) -> Seq<
    Seq<char>,
>
    decreases viewers.len(),
{
    if viewers.len() == 0 {
        Seq::empty()
    } else {
        let before = leavers(viewers.drop_last(), counts.drop_last());
        if has_left(viewers.last(), counts.last()) {
            before.push(viewers.last().session@)
        } else {
            before
        }
    }
}

/// Viewers without the one who has a session, if there is one.
pub open spec fn without(viewers: Seq<Viewer>, session: Seq<char>) -> Seq<Viewer> {
    if sessions_of(viewers).contains(session) {
        viewers.remove(sessions_of(viewers).index_of(session))
    } else {
        viewers
    }
}

/// Viewers without those who have one of these sessions.
pub open spec fn staying(viewers: Seq<Viewer>, gone: Seq<Seq<char>>) -> Seq<Viewer>
    decreases gone.len(),
{
    if gone.len() == 0 {
        viewers
    } else {
        without(staying(viewers, gone.drop_last()), gone.last())
    }
}

/// What is said of viewers who go one after the other: who goes, and how many stay.
pub open spec fn farewells(viewers: Seq<Viewer>, gone: Seq<Seq<char>>) -> Seq<(Seq<char>, News)>
    decreases gone.len(),
{
    if gone.len() == 0 {
        Seq::empty()
    } else {
        let said = farewells(viewers, gone.drop_last());
        let before = staying(viewers, gone.drop_last());
        if sessions_of(before).contains(gone.last()) {
            said.push((gone.last(), News::Left((before.len() - 1) as usize)))
        } else {
            said
        }
    }
}

/// What is sent to everybody.
pub enum MediaKind {
    Video(Packet),
    Audio(Bytes),
}

impl MediaKind {
    /// The bytes that are sent.
    pub open spec fn content(&self) -> Seq<u8> {
        match self {
            MediaKind::Video(packet) => encode::payload(packet.bytes),
            MediaKind::Audio(bytes) => encode::payload(*bytes),
        }
    }

    /// A packet of sound, to be sent to everybody.
    pub fn sound(packet: AudioPacket) -> (media: Self)
        ensures
            media is Audio,
            media.content() == packet.bytes@,
    {
        MediaKind::Audio(encode::share(packet.bytes))
    }
}

/// What a connection tells of its senders: how packets of video are represented, if it can tell,
/// and the numbers that the packets may carry.
pub struct SenderState {
    pub payload_types: Result<Vec<u8>, String>,
    pub ssrcs: Vec<u32>,
}

/// Whether this is what is sent to a viewer, and what that leaves of it. Nothing is sent while
/// the viewer wants nothing.
pub open spec fn reaches(
    before: Viewer,
    after: Viewer,
    media: MediaKind,
    sender: SenderState,
    delivery: Option<Result<Sample, SignalError>>,
) -> bool {
    if before.paused {
        delivery is None && after == before
    } else {
        &&& delivery matches Some(result)
        &&& match media {
            MediaKind::Video(_) => webrtc::shows(
                before.publisher,
                after.publisher,
                media.content(),
                sender.payload_types,
                sender.ssrcs@,
                result,
            ),
            MediaKind::Audio(_) => webrtc::sounds(
                before.publisher,
                after.publisher,
                media.content(),
                sender.ssrcs@,
                result,
            ),
        }
        &&& after == (Viewer { publisher: after.publisher, ..before })
    }
}

/// How a host takes in the sessions that are open on the link: which connections are set up,
/// and what is said of it. While there are too many viewers, no connection is set up, and that
/// is said of the first who finds none, but not again until some time has passed.
pub open spec fn greets(
    before: Host,
    after: Host,
    listed: Seq<Seq<char>>,
    now: u64,
    requests: Seq<HandshakeRequest>,
    notice: Option<Notice>,
) -> bool {
    let new = fresh(listed, before.known());
    let cooled = before.warned() matches Some(last) ==> now - last >= CAP_WARN_COOLDOWN;
    &&& after.link() == before.link()
    &&& after.audience() == before.audience()
    &&& after.packets() == before.packets()
    &&& if before.audience().len() < MAX_VIEWERS {
        &&& after.waiting() == before.waiting() + new
        &&& requests.len() == new.len()
        &&& forall|i: int|
            0 <= i < new.len() ==> {
                &&& (#[trigger] requests[i]).session_id@ == new[i]
                &&& requests[i].link_id@ == before.link()
            }
        &&& notice is None
        &&& after.warned() == before.warned()
    } else {
        &&& after.waiting() == before.waiting()
        &&& requests.len() == 0
        &&& if new.len() > 0 && cooled {
            &&& notice matches Some(told)
            &&& told.session@ == new[0]
            &&& told.news is AtCapacity
            &&& after.warned() == Some(now)
        } else {
            &&& notice is None
            &&& after.warned() == before.warned()
        }
    }
}

impl Host {
    /// The link that viewers open.
    pub closed spec fn link(&self) -> Seq<char> {
        self.link_id@
    }

    /// Those who watch.
    pub closed spec fn audience(&self) -> Seq<Viewer> {
        self.viewers@
    }

    /// The sessions to which a connection is being set up.
    pub closed spec fn waiting(&self) -> Seq<Seq<char>> {
        texts(self.pending@)
    }

    /// How many packets of video were sent.
    pub closed spec fn packets(&self) -> u64 {
        self.sent
    }

    /// When a warning was last given that there are too many viewers.
    pub closed spec fn warned(&self) -> Option<u64> {
        self.last_cap_warn
    }

    /// The sessions that need no connection: they have one, or one is being set up.
    pub open spec fn known(&self) -> Set<Seq<char>> {
        sessions_of(self.audience()).to_set() + self.waiting().to_set()
    }

    /// Nobody watches twice, no connection is set up twice, and none to somebody who watches.
    pub open spec fn consistent(&self) -> bool {
        &&& sessions_of(self.audience()).no_duplicates()
        &&& self.waiting().no_duplicates()
        &&& forall|session: Seq<char>|
            !(#[trigger] sessions_of(self.audience()).contains(session) && self.waiting().contains(
                session,
            ))
    }

    /// The host of a link that nobody watches.
    pub fn new(link_id: String) -> (host: Self)
        ensures
            host.consistent(),
            host.link() == link_id@,
            host.audience().len() == 0,
            host.waiting().len() == 0,
            host.packets() == 0,
            host.warned() is None,
    {
        Host { link_id, viewers: Vec::new(), pending: Vec::new(), sent: 0, last_cap_warn: None }
    }

    /// Where among those who watch a session is, if it is.
    fn position(&self, session: &str) -> (found: Option<usize>)
        ensures
            found is Some <==> sessions_of(self.audience()).contains(session@),
            found matches Some(i) ==> i < self.audience().len() && self.audience()[i as int].session@
                == session@,
    {
        let mut i: usize = 0;
        while i < self.viewers.len()
            invariant
                i <= self.viewers@.len(),
                forall|j: int| 0 <= j < i ==> sessions_of(self.viewers@)[j] != session@,
            decreases self.viewers@.len() - i,
        {
            if text::same_text(self.viewers[i].session.as_str(), session) {
                assert(sessions_of(self.viewers@)[i as int] == session@);
                return Some(i);
            }
            i = i + 1;
        }
        None
    }

    /// Takes in the sessions that are open on the link: which connections to set up, which are
    /// those to sessions that are not known yet, and whether to warn that there are too many
    /// viewers. While there are, no connection is set up, and there is at most one warning
    /// within a time.
    pub fn on_sessions(&mut self, listed: &Vec<String>, now: u64) -> (result: (
        Vec<HandshakeRequest>,
        Option<Notice>,
    ))
        requires
            old(self).consistent(),
        ensures
            final(self).consistent(),
            greets(*old(self), *final(self), texts(listed@), now, result.0@, result.1),
    {
        let ghost known = self.known();
        let ghost all = texts(listed@);
        let ghost waiting = self.waiting();
        let ghost cooled = old(self).warned() matches Some(last) ==> now - last
            >= CAP_WARN_COOLDOWN;
        let full = self.viewers.len() >= MAX_VIEWERS;
        let mut requests: Vec<HandshakeRequest> = Vec::new();
        let mut notice: Option<Notice> = None;
        let mut i: usize = 0;
        assert(all.take(0) =~= Seq::empty());
        assert(self.waiting() =~= waiting + fresh(all.take(0), known));
        while i < listed.len()
            invariant
                i <= listed@.len(),
                all == texts(listed@),
                known == old(self).known(),
                waiting == old(self).waiting(),
                cooled == (old(self).warned() matches Some(last) ==> now - last
                    >= CAP_WARN_COOLDOWN),
                full == (old(self).audience().len() >= MAX_VIEWERS),
                self.link_id == old(self).link_id,
                self.viewers == old(self).viewers,
                self.sent == old(self).sent,
                !full ==> {
                    let new = fresh(all.take(i as int), known);
                    &&& self.waiting() == waiting + new
                    &&& requests@.len() == new.len()
                    &&& forall|j: int|
                        0 <= j < new.len() ==> {
                            &&& (#[trigger] requests@[j]).session_id@ == new[j]
                            &&& requests@[j].link_id@ == old(self).link()
                        }
                    &&& notice is None
                    &&& self.last_cap_warn == old(self).last_cap_warn
                },
                full ==> {
                    let new = fresh(all.take(i as int), known);
                    &&& self.waiting() == waiting
                    &&& requests@.len() == 0
                    &&& if new.len() > 0 && cooled {
                        &&& notice matches Some(told)
                        &&& told.session@ == new[0]
                        &&& told.news is AtCapacity
                        &&& self.last_cap_warn == Some(now)
                    } else {
                        &&& notice is None
                        &&& self.last_cap_warn == old(self).last_cap_warn
                    }
                },
            decreases listed@.len() - i,
        {
            let session = &listed[i];
            let ghost before = fresh(all.take(i as int), known);
            assert(all.take(i + 1).drop_last() =~= all.take(i as int));
            assert(all.take(i + 1).last() == session@);
            let watching = self.position(session.as_str()).is_some();
            let waits = holds(&self.pending, session.as_str());
            proof {
                assert(known.contains(session@) <==> watching || waiting.contains(session@)) by {
                    assert(sessions_of(self.audience()).to_set().contains(session@)
                        == sessions_of(self.audience()).contains(session@));
                }
            }
            assert(!full ==> (waits <==> waiting.contains(session@) || before.contains(session@)))
                by {
                contains_in_either(waiting, before, session@);
            }
            if !watching && !waits {
                if full {
                    let cool = match self.last_cap_warn {
                        Some(last) => now >= last && now - last >= CAP_WARN_COOLDOWN,
                        None => true,
                    };
                    if cool {
                        notice = Some(
                            Notice { session: session.clone(), news: News::AtCapacity },
                        );
                        self.last_cap_warn = Some(now);
                    }
                } else {
                    let ghost held = self.pending@;
                    self.pending.push(session.clone());
                    requests.push(
                        HandshakeRequest {
                            link_id: self.link_id.clone(),
                            session_id: session.clone(),
                        },
                    );
                    assert(texts(held.push(*session)) =~= texts(held).push(session@));
                    assert(self.waiting() =~= waiting + before.push(session@));
                }
            }
            i = i + 1;
        }
        proof {
            assert(all.take(i as int) =~= all);
            fresh_is_listed_and_unknown(all, known);
            if !full {
                waiting_grows(old(self).audience(), waiting, fresh(all, known), known);
            }
        }
        (requests, notice)
    }

    /// Where the link has run out, everybody is gone, and there is a new link.
    pub fn renew_link(&mut self, link_id: String)
        ensures
            final(self).consistent(),
            final(self).link() == link_id@,
            final(self).audience().len() == 0,
            final(self).waiting().len() == 0,
            final(self).packets() == old(self).packets(),
            final(self).warned() == old(self).warned(),
    {
        self.link_id = link_id;
        self.viewers = Vec::new();
        self.pending = Vec::new();
    }

    /// No longer waits for a session.
    fn stop_waiting(&mut self, session: &str)
        requires
            old(self).consistent(),
        ensures
            final(self).consistent(),
            final(self).waiting() == old(self).waiting().remove_value(session@),
            !final(self).waiting().contains(session@),
            final(self).link() == old(self).link(),
            final(self).audience() == old(self).audience(),
            final(self).packets() == old(self).packets(),
            final(self).warned() == old(self).warned(),
    {
        let ghost waiting = self.waiting();
        proof {
            waiting.index_of_first_ensures(session@);
        }
        let mut i: usize = 0;
        while i < self.pending.len()
            invariant
                i <= self.pending@.len(),
                *self == *old(self),
                waiting == self.waiting(),
                self.consistent(),
                forall|j: int| 0 <= j < i ==> waiting[j] != session@,
            decreases self.pending@.len() - i,
        {
            if text::same_text(self.pending[i].as_str(), session) {
                self.pending.remove(i);
                proof {
                    waiting.index_of_first_ensures(session@);
                    assert(waiting[i as int] == session@);
                    assert(self.waiting() =~= waiting.remove(i as int));
                    removing_keeps_distinct(waiting, i as int);
                }
                return ;
            }
            i = i + 1;
        }
    }

    /// Takes in what came of setting a connection up. Whoever is connected watches from now on,
    /// unless they do already: then there is one connection too many.
    pub fn on_outcome(&mut self, outcome: HandshakeOutcome) -> (admission: Admission)
        requires
            old(self).consistent(),
        ensures
            final(self).consistent(),
            final(self).link() == old(self).link(),
            final(self).packets() == old(self).packets(),
            final(self).warned() == old(self).warned(),
            final(self).waiting() == old(self).waiting().remove_value(outcome.session()),
            !final(self).waiting().contains(outcome.session()),
            match outcome {
                HandshakeOutcome::Connected { session, publisher, leave_baseline } => {
                    &&& if sessions_of(old(self).audience()).contains(session@) {
                        &&& final(self).audience() == old(self).audience()
                        &&& admission is Superfluous
                    } else {
                        &&& final(self).audience() == old(self).audience().push(
                            (Viewer {
                                session,
                                publisher,
                                leave_baseline,
                                grace_until: None,
                                paused: false,
                            }),
                        )
                        &&& admission matches Admission::Watching(notice)
                        &&& notice.session@ == session@
                        &&& notice.news matches News::Connected(total)
                        &&& total == final(self).audience().len()
                    }
                    &&& !final(self).waiting().contains(session@)
                    &&& sessions_of(final(self).audience()).contains(session@)
                },
                HandshakeOutcome::Failed { session, reason } => {
                    &&& final(self).audience() == old(self).audience()
                    &&& admission matches Admission::Refused(notice)
                    &&& notice.session@ == session@
                    &&& notice.news matches News::HandshakeFailed(why)
                    &&& why@ == reason@
                    &&& !final(self).waiting().contains(session@)
                },
            },
    {
        match outcome {
            HandshakeOutcome::Connected { session, publisher, leave_baseline } => {
                self.stop_waiting(session.as_str());
                if self.position(session.as_str()).is_some() {
                    return Admission::Superfluous;
                }
                let who = session.clone();
                let ghost viewers = self.viewers@;
                let ghost name = session@;
                self.viewers.push(
                    Viewer { session, publisher, leave_baseline, grace_until: None, paused: false },
                );
                proof {
                    assert(sessions_of(self.viewers@) =~= sessions_of(viewers).push(name));
                    assert(sessions_of(self.viewers@)[viewers.len() as int] == name);
                    assert forall|other: Seq<char>| #[trigger]
                        sessions_of(self.viewers@).contains(
                            other,
                        ) implies !self.waiting().contains(other) by {
                        assert(sessions_of(viewers).contains(other) || other == name);
                    }
                }
                Admission::Watching(
                    Notice { session: who, news: News::Connected(self.viewers.len()) },
                )
            },
            HandshakeOutcome::Failed { session, reason } => {
                self.stop_waiting(session.as_str());
                Admission::Refused(Notice { session, news: News::HandshakeFailed(reason) })
            },
        }
    }

    /// Whoever has a session no longer watches. Says so, if they did.
    pub fn remove_viewer(&mut self, session: &str) -> (notice: Option<Notice>)
        requires
            old(self).consistent(),
        ensures
            final(self).consistent(),
            final(self).link() == old(self).link(),
            final(self).waiting() == old(self).waiting(),
            final(self).packets() == old(self).packets(),
            final(self).warned() == old(self).warned(),
            !sessions_of(final(self).audience()).contains(session@),
            if sessions_of(old(self).audience()).contains(session@) {
                &&& final(self).audience() == old(self).audience().remove(
                    sessions_of(old(self).audience()).index_of(session@),
                )
                &&& notice matches Some(told)
                &&& told.session@ == session@
                &&& told.news matches News::Left(rest)
                &&& rest == final(self).audience().len()
            } else {
                &&& final(self).audience() == old(self).audience()
                &&& notice is None
            },
    {
        match self.position(session) {
            Some(i) => {
                let ghost viewers = self.viewers@;
                let ghost sessions = sessions_of(viewers);
                let viewer = self.viewers.remove(i);
                proof {
                    assert(sessions[i as int] == session@);
                    assert(sessions_of(self.viewers@) =~= sessions.remove(i as int));
                    removing_keeps_distinct(sessions, i as int);
                }
                Some(Notice { session: viewer.session, news: News::Left(self.viewers.len()) })
            },
            None => None,
        }
    }

    /// Those with these sessions no longer watch. Says so of each who did.
    pub fn remove_viewers(&mut self, gone: &Vec<String>) -> (notices: Vec<Notice>)
        requires
            old(self).consistent(),
        ensures
            final(self).consistent(),
            final(self).link() == old(self).link(),
            final(self).waiting() == old(self).waiting(),
            final(self).packets() == old(self).packets(),
            final(self).warned() == old(self).warned(),
            final(self).audience() == staying(old(self).audience(), texts(gone@)),
            viewer::told(notices@) == farewells(old(self).audience(), texts(gone@)),
    {
        let mut notices: Vec<Notice> = Vec::new();
        let ghost all = texts(gone@);
        let mut i: usize = 0;
        assert(viewer::told(notices@) =~= farewells(old(self).audience(), all.take(0)));
        while i < gone.len()
            invariant
                i <= gone@.len(),
                all == texts(gone@),
                self.consistent(),
                self.link() == old(self).link(),
                self.waiting() == old(self).waiting(),
                self.packets() == old(self).packets(),
                self.warned() == old(self).warned(),
                self.audience() == staying(old(self).audience(), all.take(i as int)),
                viewer::told(notices@) == farewells(old(self).audience(), all.take(i as int)),
            decreases gone@.len() - i,
        {
            proof {
                assert(all.take(i + 1).drop_last() =~= all.take(i as int));
                assert(all.take(i + 1).last() == gone@[i as int]@);
            }
            let ghost said = notices@;
            if let Some(notice) = self.remove_viewer(gone[i].as_str()) {
                notices.push(notice);
                assert(viewer::told(notices@) =~= viewer::told(said).push((notice.session@, notice.news)));
            }
            i = i + 1;
        }
        assert(all.take(i as int) =~= all);
        notices
    }

    /// Looks at what happened to each viewer's connection and at what it asked for. Those to be
    /// given up, once for each reason, and what there is to say.
    pub fn drain_viewer_events(&mut self, now: u64) -> (result: (Vec<String>, Vec<Notice>))
        requires
            old(self).consistent(),
            now + RECOVER_GRACE <= u64::MAX,
        ensures
            final(self).consistent(),
            final(self).link() == old(self).link(),
            final(self).waiting() == old(self).waiting(),
            final(self).packets() == old(self).packets(),
            final(self).warned() == old(self).warned(),
            final(self).audience().len() == old(self).audience().len(),
            forall|i: int|
                0 <= i < old(self).audience().len() ==> (#[trigger] old(
                    self,
                ).audience()[i]).settles(&final(self).audience()[i], now),
            texts(result.0@) == departing(old(self).audience(), now),
            viewer::told(result.1@) == all_news(old(self).audience()),
            forall|i: int|
                0 <= i < old(self).audience().len()
                    && !old(self).audience()[i].publisher.control.left ==> (
                #[trigger] final(self).audience()[i]).paused
                    == old(self).audience()[i].publisher.control.paused,
    {
        let mut gone: Vec<String> = Vec::new();
        let mut notices: Vec<Notice> = Vec::new();
        let ghost viewers = self.viewers@;
        let mut i: usize = 0;
        assert(viewers.take(0) =~= Seq::empty());
        assert(texts(gone@) =~= departing(viewers.take(0), now));
        assert(viewer::told(notices@) =~= all_news(viewers.take(0)));
        while i < self.viewers.len()
            invariant
                i <= viewers.len(),
                viewers == old(self).viewers@,
                self.viewers@.len() == viewers.len(),
                self.link_id == old(self).link_id,
                self.pending == old(self).pending,
                self.sent == old(self).sent,
                self.last_cap_warn == old(self).last_cap_warn,
                now + RECOVER_GRACE <= u64::MAX,
                forall|j: int|
                    0 <= j < i ==> (#[trigger] viewers[j]).settles(&self.viewers@[j], now),
                forall|j: int| i <= j < viewers.len() ==> self.viewers@[j] == viewers[j],
                texts(gone@) == departing(viewers.take(i as int), now),
                viewer::told(notices@) == all_news(viewers.take(i as int)),
            decreases viewers.len() - i,
        {
            let ghost seen = viewers[i as int];
            let ghost before = gone@;
            let ghost said = notices@;
            let (reasons, mut more) = self.viewers[i].look(now);
            let ghost more_told = more@;
            let mut count: usize = 0;
            assert(texts(before) =~= texts(before) + Seq::new(0, |k: int| seen.session@));
            while count < reasons
                invariant
                    count <= reasons,
                    i < self.viewers@.len(),
                    self.viewers@[i as int].session@ == seen.session@,
                    texts(gone@) == texts(before) + Seq::new(
                        count as nat,
                        |k: int| seen.session@,
                    ),
                decreases reasons - count,
            {
                let ghost held = gone@;
                gone.push(self.viewers[i].session.clone());
                count = count + 1;
                assert(texts(gone@) =~= texts(held).push(seen.session@));
                assert(texts(gone@) =~= texts(before) + Seq::new(
                    count as nat,
                    |k: int| seen.session@,
                ));
            }
            notices.append(&mut more);
            proof {
                assert(viewers.take(i + 1).drop_last() =~= viewers.take(i as int));
                assert(viewers.take(i + 1).last() == seen);
                assert(viewer::told(notices@) =~= viewer::told(said) + viewer::told(more_told));
            }
            i = i + 1;
        }
        proof {
            assert(viewers.take(i as int) =~= viewers);
            assert forall|j: int| 0 <= j < viewers.len() implies sessions_of(viewers)[j]
                == sessions_of(self.viewers@)[j] by {
                assert(viewers[j].settles(&self.viewers@[j], now));
            }
            assert(sessions_of(self.viewers@) =~= sessions_of(viewers));
            assert forall|j: int|
                0 <= j < viewers.len()
                    && !viewers[j].publisher.control.left implies (#[trigger] self.viewers@[j]).paused
                == viewers[j].publisher.control.paused by {
                assert(viewers[j].settles(&self.viewers@[j], now));
                viewer::a_look_goes_by_the_last_word(viewers[j], self.viewers@[j], now);
            }
        }
        (gone, notices)
    }

    /// The link that viewers open.
    pub fn link_id(&self) -> (link: &str)
        ensures
            link@ == self.link(),
    {
        self.link_id.as_str()
    }

    /// How many packets of video were sent.
    pub fn packet_count(&self) -> (count: u64)
        ensures
            count == self.packets(),
    {
        self.sent
    }

    /// How many watch.
    pub fn viewer_count(&self) -> (count: usize)
        ensures
            count == self.audience().len(),
    {
        self.viewers.len()
    }

    /// One of those who watch.
    pub fn viewer(&self, index: usize) -> (viewer: &Viewer)
        requires
            index < self.audience().len(),
        ensures
            *viewer == self.audience()[index as int],
    {
        &self.viewers[index]
    }

    /// The client's end of the connection to one of those who watch.
    pub fn publisher(&mut self, index: usize) -> (publisher: &mut Publisher)
        requires
            old(self).consistent(),
            index < old(self).audience().len(),
        ensures
            *publisher == old(self).audience()[index as int].publisher,
            final(self).consistent(),
            final(self).link() == old(self).link(),
            final(self).waiting() == old(self).waiting(),
            final(self).packets() == old(self).packets(),
            final(self).warned() == old(self).warned(),
            final(self).audience() == old(self).audience().update(
                index as int,
                Viewer {
                    publisher: *final(publisher),
                    ..old(self).audience()[index as int]
                },
            ),
    {
        let ghost viewers = self.viewers@;
        proof {
            assert forall|after: Viewer|
                after.session == viewers[index as int].session implies sessions_of(
                #[trigger] viewers.update(index as int, after),
            ) == sessions_of(viewers) by {
                assert(sessions_of(viewers.update(index as int, after)) =~= sessions_of(viewers));
            }
        }
        &mut self.viewers[index].publisher
    }

    /// The line that tells how far the stream has come.
    pub open spec fn progress(&self) -> Seq<char> {
        "[INFO] streaming: "@ + text::decimal(self.packets() as nat) + " frames to "@
            + text::decimal(self.audience().len()) + " viewers"@
    }

    /// Counts a packet of video that is sent. Now and then there is a line to report.
    pub fn count_packet(&mut self) -> (line: Option<String>)
        requires
            old(self).packets() < u64::MAX,
        ensures
            old(self).consistent() ==> final(self).consistent(),
            final(self).link() == old(self).link(),
            final(self).audience() == old(self).audience(),
            final(self).waiting() == old(self).waiting(),
            final(self).warned() == old(self).warned(),
            final(self).packets() == old(self).packets() + 1,
            line is Some <==> final(self).packets() % REPORT_EVERY == 0,
            line matches Some(shown) ==> shown@ == final(self).progress(),
            line is Some <==> final(self).packets() % 300 == 0,
            line matches Some(shown) ==> shown@ == "[INFO] streaming: "@ + text::decimal(
                (old(self).packets() + 1) as nat,
            ) + " frames to "@ + text::decimal(old(self).audience().len()) + " viewers"@,
    {
        self.sent = self.sent + 1;
        if self.sent.is_multiple_of(REPORT_EVERY) {
            let mut line = "[INFO] streaming: ".to_owned();
            text::push_decimal(&mut line, self.sent);
            line.append(" frames to ");
            text::push_decimal(&mut line, self.viewers.len() as u64);
            line.append(" viewers");
            Some(line)
        } else {
            None
        }
    }

    /// Given for each of those who watch how often they have left by now, if that can be told:
    /// the sessions of those who are gone.
    pub fn departed(&self, counts: &Vec<Result<u64, SignalError>>) -> (gone: Vec<String>)
        requires
            counts@.len() == self.audience().len(),
        ensures
            texts(gone@) == leavers(self.audience(), counts@),
            self.consistent() ==> forall|i: int|
                0 <= i < self.audience().len() ==> (texts(gone@).contains(
                    (#[trigger] self.audience()[i]).session@,
                ) <==> match counts@[i] {
                    Ok(count) => count > self.audience()[i].leave_baseline,
                    Err(error) => error.status == Some(404u16),
                }),
    {
        let mut gone: Vec<String> = Vec::new();
        let mut i: usize = 0;
        assert(texts(gone@) =~= leavers(self.audience().take(0), counts@.take(0)));
        while i < self.viewers.len()
            invariant
                i <= self.viewers@.len(),
                counts@.len() == self.viewers@.len(),
                texts(gone@) == leavers(self.viewers@.take(i as int), counts@.take(i as int)),
            decreases self.viewers@.len() - i,
        {
            let left = match &counts[i] {
                Ok(count) => *count > self.viewers[i].leave_baseline,
                Err(error) => error.not_found(),
            };
            let ghost held = gone@;
            proof {
                assert(self.viewers@.take(i + 1).drop_last() =~= self.viewers@.take(i as int));
                assert(counts@.take(i + 1).drop_last() =~= counts@.take(i as int));
            }
            if left {
                gone.push(self.viewers[i].session.clone());
                assert(texts(gone@) =~= texts(held).push(self.viewers@[i as int].session@));
            }
            i = i + 1;
        }
        proof {
            assert(self.viewers@.take(i as int) =~= self.viewers@);
            assert(counts@.take(i as int) =~= counts@);
            if self.consistent() {
                watching_is_once(*self);
                assert forall|k: int| 0 <= k < self.audience().len() implies (texts(
                    gone@,
                ).contains((#[trigger] self.audience()[k]).session@) <==> match counts@[k] {
                    Ok(count) => count > self.audience()[k].leave_baseline,
                    Err(error) => error.status == Some(404u16),
                }) by {
                    whoever_left_is_found(self.audience(), counts@, k);
                }
            }
        }
        gone
    }

    /// Sound or pictures for everybody who wants something to be sent: what is to be sent to
    /// each, given what each connection tells of its senders. Everybody gets the same bytes.
    pub fn fan_out(&mut self, media: &MediaKind, senders: &Vec<SenderState>) -> (deliveries: Vec<
        Option<Result<Sample, SignalError>>,
    >)
        requires
            old(self).consistent(),
            senders@.len() == old(self).audience().len(),
        ensures
            final(self).consistent(),
            final(self).link() == old(self).link(),
            final(self).waiting() == old(self).waiting(),
            final(self).packets() == old(self).packets(),
            final(self).warned() == old(self).warned(),
            final(self).audience().len() == old(self).audience().len(),
            deliveries@.len() == old(self).audience().len(),
            forall|i: int|
                0 <= i < old(self).audience().len() ==> reaches(
                    #[trigger] old(self).audience()[i],
                    final(self).audience()[i],
                    *media,
                    senders@[i],
                    deliveries@[i],
                ),
    {
        let mut deliveries: Vec<Option<Result<Sample, SignalError>>> = Vec::new();
        let ghost viewers = self.viewers@;
        let mut i: usize = 0;
        while i < self.viewers.len()
            invariant
                i <= viewers.len(),
                viewers == old(self).viewers@,
                self.viewers@.len() == viewers.len(),
                senders@.len() == viewers.len(),
                deliveries@.len() == i,
                self.link_id == old(self).link_id,
                self.pending == old(self).pending,
                self.sent == old(self).sent,
                self.last_cap_warn == old(self).last_cap_warn,
                forall|j: int|
                    0 <= j < i ==> reaches(
                        #[trigger] viewers[j],
                        self.viewers@[j],
                        *media,
                        senders@[j],
                        deliveries@[j],
                    ),
                forall|j: int| i <= j < viewers.len() ==> self.viewers@[j] == viewers[j],
            decreases viewers.len() - i,
        {
            let ghost seen = viewers[i as int];
            let ghost done = deliveries@;
            if self.viewers[i].paused {
                deliveries.push(None);
            } else {
                let result = match media {
                    MediaKind::Video(packet) => self.viewers[i].publisher.publish(
                        packet.clone(),
                        &senders[i].payload_types,
                        &senders[i].ssrcs,
                    ),
                    MediaKind::Audio(bytes) => self.viewers[i].publisher.publish_audio(
                        bytes.clone(),
                        &senders[i].ssrcs,
                    ),
                };
                deliveries.push(Some(result));
            }
            assert(reaches(
                seen,
                self.viewers@[i as int],
                *media,
                senders@[i as int],
                deliveries@[i as int],
            ));
            assert(forall|j: int| 0 <= j < i ==> deliveries@[j] == done[j]);
            i = i + 1;
        }
        proof {
            assert forall|j: int| 0 <= j < viewers.len() implies sessions_of(viewers)[j]
                == sessions_of(self.viewers@)[j] by {
                assert(reaches(
                    viewers[j],
                    self.viewers@[j],
                    *media,
                    senders@[j],
                    deliveries@[j],
                ));
            }
            assert(sessions_of(self.viewers@) =~= sessions_of(viewers));
        }
        deliveries
    }

    /// Takes in what came of asking which sessions are open on the link. Where the server does
    /// not know the link, it has run out.
    pub fn on_poll(&mut self, polled: Result<Vec<String>, SignalError>, now: u64) -> (step:
        SessionStep)
        requires
            old(self).consistent(),
        ensures
            final(self).consistent(),
            match polled {
                Ok(listed) => {
                    &&& step matches SessionStep::Greet(requests, notice)
                    &&& greets(*old(self), *final(self), texts(listed@), now, requests@, notice)
                },
                Err(error) => {
                    &&& *final(self) == *old(self)
                    &&& if error.status == Some(404u16) {
                        step is Renew
                    } else {
                        &&& step matches SessionStep::Warn(line)
                        &&& line@ == "[WARN] session poll failed: "@ + error.text()
                    }
                },
            },
    {
        match polled {
            Ok(listed) => {
                let (requests, notice) = self.on_sessions(&listed, now);
                SessionStep::Greet(requests, notice)
            },
            Err(error) => if error.not_found() {
                SessionStep::Renew
            } else {
                SessionStep::Warn(error.after("[WARN] session poll failed: "))
            },
        }
    }

    /// Takes in what came of capturing and encoding a picture. What cannot be captured is tried
    /// again later, what cannot be encoded ends the stream.
    pub fn on_video(&mut self, captured: Result<Result<Option<Packet>, String>, SignalError>) -> (
    step: VideoStep)
        requires
            old(self).packets() < u64::MAX,
        ensures
            old(self).consistent() ==> final(self).consistent(),
            final(self).link() == old(self).link(),
            final(self).audience() == old(self).audience(),
            final(self).waiting() == old(self).waiting(),
            final(self).warned() == old(self).warned(),
            final(self).packets() == old(self).packets() + if step is Send {
                1int
            } else {
                0int
            },
            match captured {
                Err(error) => {
                    &&& step matches VideoStep::Retry(line, pause)
                    &&& line@ == "[WARN] capture failed: "@ + error.text() + "; retrying"@
                    &&& pause == CAPTURE_PAUSE
                },
                Ok(Err(reason)) => step == VideoStep::Stop(reason),
                Ok(Ok(None)) => step is Skip,
                Ok(Ok(Some(packet))) => {
                    &&& step matches VideoStep::Send(media, line)
                    &&& media == MediaKind::Video(packet)
                    &&& line is Some <==> final(self).packets() % REPORT_EVERY == 0
                    &&& line matches Some(shown) ==> shown@ == final(self).progress()
                },
            },
    {
        match captured {
            Err(error) => {
                let mut line = error.after("[WARN] capture failed: ");
                line.append("; retrying");
                VideoStep::Retry(line, CAPTURE_PAUSE)
            },
            Ok(Err(reason)) => VideoStep::Stop(reason),
            Ok(Ok(None)) => VideoStep::Skip,
            Ok(Ok(Some(packet))) => {
                let line = self.count_packet();
                VideoStep::Send(MediaKind::Video(packet), line)
            },
        }
    }
}

/// Takes in what came of capturing sound.
pub fn on_audio(captured: Result<Option<AudioPacket>, SignalError>) -> (step: AudioStep)
    ensures
        match captured {
            Err(error) => {
                &&& step matches AudioStep::Warn(line)
                &&& line@ == "[WARN] audio capture failed: "@ + error.text()
            },
            Ok(None) => step is Skip,
            Ok(Some(packet)) => {
                &&& step matches AudioStep::Send(media)
                &&& media is Audio
                &&& media.content() == packet.bytes@
            },
        },
{
    match captured {
        Err(error) => AudioStep::Warn(error.after("[WARN] audio capture failed: ")),
        Ok(None) => AudioStep::Skip,
        Ok(Some(packet)) => AudioStep::Send(MediaKind::sound(packet)),
    }
}

/// What comes of sending: a line to report, where it failed.
pub fn on_sent(outcome: Result<(), SignalError>) -> (line: Option<String>)
    ensures
        match outcome {
            Ok(_) => line is None,
            Err(error) => line matches Some(shown) && shown@ == "[WARN] send failed: "@
                + error.text(),
        },
{
    match outcome {
        Ok(_) => None,
        Err(error) => Some(error.after("[WARN] send failed: ")),
    }
}

/// After the sessions with these names went, exactly those viewers stay that have another.
pub proof fn only_the_named_go(viewers: Seq<Viewer>, gone: Seq<Seq<char>>)
    requires
        sessions_of(viewers).no_duplicates(),
    ensures
        sessions_of(staying(viewers, gone)).no_duplicates(),
        forall|viewer: Viewer| #[trigger]
            staying(viewers, gone).contains(viewer) <==> viewers.contains(viewer) && !gone.contains(
                viewer.session@,
            ),
    decreases gone.len(),
{
    if gone.len() > 0 {
        let before = gone.drop_last();
        let name = gone.last();
        let held = staying(viewers, before);
        let left = staying(viewers, gone);
        only_the_named_go(viewers, before);
        assert forall|other: Seq<char>| gone.contains(other) <==> before.contains(other) || other
            == name by {
            if gone.contains(other) {
                let i = choose|i: int| 0 <= i < gone.len() && gone[i] == other;
                if i < gone.len() - 1 {
                    assert(before[i] == other);
                }
            }
            if before.contains(other) {
                let i = choose|i: int| 0 <= i < before.len() && before[i] == other;
                assert(gone[i] == other);
            }
            assert(gone[gone.len() - 1] == name);
        }
        let sessions = sessions_of(held);
        if sessions.contains(name) {
            let at = sessions.index_of(name);
            assert(left == held.remove(at));
            removing_keeps_distinct(sessions, at);
            assert(sessions_of(left) =~= sessions.remove(at));
            assert forall|viewer: Viewer| #[trigger] left.contains(viewer) <==> held.contains(viewer)
                && viewer.session@ != name by {
                if left.contains(viewer) {
                    let j = choose|j: int| 0 <= j < left.len() && left[j] == viewer;
                    let k = if j < at {
                        j
                    } else {
                        j + 1
                    };
                    assert(held[k] == viewer);
                    assert(sessions[k] == viewer.session@);
                    assert(sessions[at] == name);
                }
                if held.contains(viewer) && viewer.session@ != name {
                    let j = choose|j: int| 0 <= j < held.len() && held[j] == viewer;
                    assert(sessions[j] == viewer.session@);
                    assert(left[if j < at { j } else { j - 1 }] == viewer);
                }
            }
        } else {
            assert forall|viewer: Viewer| held.contains(viewer) implies viewer.session@ != name by {
                let j = choose|j: int| 0 <= j < held.len() && held[j] == viewer;
                assert(sessions[j] == viewer.session@);
            }
        }
    }
}

/// A viewer is given up exactly if there is a reason.
pub proof fn given_up_for_a_reason(viewers: Seq<Viewer>, now: u64, index: int)
    requires
        sessions_of(viewers).no_duplicates(),
        0 <= index < viewers.len(),
    ensures
        departing(viewers, now).contains(viewers[index].session@) <==> viewers[index].reasons(now)
            > 0,
    decreases viewers.len(),
{
    let name = viewers[index].session@;
    let earlier = viewers.drop_last();
    let last = viewers.last();
    let end = Seq::new(last.reasons(now), |k: int| last.session@);
    contains_in_either(departing(earlier, now), end, name);
    assert(sessions_of(viewers)[index] == name);
    assert(sessions_of(viewers)[viewers.len() - 1] == last.session@);
    assert(sessions_of(earlier) =~= sessions_of(viewers).drop_last());
    if index < viewers.len() - 1 {
        given_up_for_a_reason(earlier, now, index);
        assert(!end.contains(name));
    } else {
        assert(end.contains(name) <==> last.reasons(now) > 0) by {
            if last.reasons(now) > 0 {
                assert(end[0] == name);
            }
        }
        others_are_not_named(earlier, now, name);
    }
}

/// Nobody is given up who is not there.
proof fn others_are_not_named(viewers: Seq<Viewer>, now: u64, name: Seq<char>)
    requires
        !sessions_of(viewers).contains(name),
    ensures
        !departing(viewers, now).contains(name),
    decreases viewers.len(),
{
    if viewers.len() > 0 {
        let earlier = viewers.drop_last();
        let last = viewers.last();
        let end = Seq::new(last.reasons(now), |k: int| last.session@);
        contains_in_either(departing(earlier, now), end, name);
        assert(sessions_of(viewers)[viewers.len() - 1] == last.session@);
        if sessions_of(earlier).contains(name) {
            let j = choose|j: int|
                0 <= j < sessions_of(earlier).len() && sessions_of(earlier)[j] == name;
            assert(sessions_of(viewers)[j] == name);
        }
        others_are_not_named(earlier, now, name);
    }
}

/// Once the sessions that are open were taken in, doing so again sets up no connection.
pub proof fn listing_again_asks_for_nothing(
    before: Host,
    between: Host,
    after: Host,
    listed: Seq<Seq<char>>,
    first: (u64, Seq<HandshakeRequest>, Option<Notice>),
    second: (u64, Seq<HandshakeRequest>, Option<Notice>),
)
    requires
        greets(before, between, listed, first.0, first.1, first.2),
        greets(between, after, listed, second.0, second.1, second.2),
    ensures
        second.1.len() == 0,
{
    if before.audience().len() < MAX_VIEWERS {
        let new = fresh(listed, before.known());
        let again = fresh(listed, between.known());
        fresh_is_listed_and_unknown(listed, before.known());
        fresh_is_listed_and_unknown(listed, between.known());
        if again.len() > 0 {
            let session = again[0];
            assert(again.contains(session));
            assert(between.waiting().contains(session) ==> between.known().contains(session));
            contains_in_either(before.waiting(), new, session);
            if before.known().contains(session) {
                if sessions_of(before.audience()).contains(session) {
                    assert(between.known().contains(session));
                } else {
                    assert(before.waiting().contains(session));
                }
            } else {
                assert(new.contains(session));
            }
        }
    }
}

/// A session for which there is no connection and none is being set up is asked for when it is
/// listed next, unless there are too many viewers. So is one for which a connection failed.
pub proof fn whoever_is_left_out_is_asked_for(
    before: Host,
    after: Host,
    listed: Seq<Seq<char>>,
    now: u64,
    requests: Seq<HandshakeRequest>,
    notice: Option<Notice>,
    session: Seq<char>,
)
    requires
        greets(before, after, listed, now, requests, notice),
        before.audience().len() < MAX_VIEWERS,
        listed.contains(session),
        !sessions_of(before.audience()).contains(session),
        !before.waiting().contains(session),
    ensures
        exists|i: int| 0 <= i < requests.len() && (#[trigger] requests[i]).session_id@ == session,
        after.waiting().contains(session),
{
    let new = fresh(listed, before.known());
    fresh_is_listed_and_unknown(listed, before.known());
    assert(!before.known().contains(session));
    assert(new.contains(session));
    let i = choose|i: int| 0 <= i < new.len() && new[i] == session;
    assert(requests[i].session_id@ == session);
    contains_in_either(before.waiting(), new, session);
}

/// Everybody to whom something is sent gets the same bytes.
pub proof fn everybody_gets_the_same(
    media: MediaKind,
    one: (Viewer, Viewer, SenderState, Sample),
    other: (Viewer, Viewer, SenderState, Sample),
)
    requires
        reaches(one.0, one.1, media, one.2, Some(Ok(one.3))),
        reaches(other.0, other.1, media, other.2, Some(Ok(other.3))),
    ensures
        encode::payload(one.3.data) == encode::payload(other.3.data),
{
}

/// The sessions of viewers are those of each of them, in order, and so are the texts of strings.
pub proof fn each_has_its_own_session(viewers: Seq<Viewer>, strings: Seq<String>, i: int)
    ensures
        sessions_of(viewers).len() == viewers.len(),
        0 <= i < viewers.len() ==> sessions_of(viewers)[i] == viewers[i].session@,
        texts(strings).len() == strings.len(),
        0 <= i < strings.len() ==> texts(strings)[i] == strings[i]@,
{
}

/// In a consistent host no two viewers have the same session, no connection is set up twice, and
/// none to a session that somebody has.
pub proof fn watching_is_once(host: Host)
    requires
        host.consistent(),
    ensures
        forall|i: int, j: int|
            0 <= i < j < host.audience().len() ==> (#[trigger] host.audience()[i]).session@ != (
            #[trigger] host.audience()[j]).session@,
        forall|i: int, j: int|
            0 <= i < j < host.waiting().len() ==> #[trigger] host.waiting()[i]
                != #[trigger] host.waiting()[j],
        forall|i: int, j: int|
            0 <= i < host.audience().len() && 0 <= j < host.waiting().len() ==> (
            #[trigger] host.audience()[i]).session@ != #[trigger] host.waiting()[j],
{
    let sessions = sessions_of(host.audience());
    assert forall|i: int, j: int| 0 <= i < j < host.audience().len() implies (
    #[trigger] host.audience()[i]).session@ != (#[trigger] host.audience()[j]).session@ by {
        assert(sessions[i] != sessions[j]);
    }
    assert forall|i: int, j: int|
        0 <= i < host.audience().len() && 0 <= j < host.waiting().len() implies (
    #[trigger] host.audience()[i]).session@ != #[trigger] host.waiting()[j] by {
        assert(sessions[i] == host.audience()[i].session@);
        assert(sessions.contains(sessions[i]));
        assert(host.waiting().contains(host.waiting()[j]));
    }
}

/// Where no two viewers have the same session, a viewer is found to have left exactly if it has
/// left more often than when it came, be that never, or if the server does not know it any more.
pub proof fn whoever_left_is_found(
    viewers: Seq<Viewer>,
    counts: Seq<Result<u64, SignalError>>,
    i: int,
)
    requires
        counts.len() == viewers.len(),
        0 <= i < viewers.len(),
        forall|j: int, k: int|
            0 <= j < k < viewers.len() ==> (#[trigger] viewers[j]).session@ != (
            #[trigger] viewers[k]).session@,
    ensures
        leavers(viewers, counts).contains(viewers[i].session@) <==> match counts[i] {
            Ok(count) => count > viewers[i].leave_baseline,
            Err(error) => error.status == Some(404u16),
        },
    decreases viewers.len(),
{
    let name = viewers[i].session@;
    let end = viewers.len() - 1;
    let before = leavers(viewers.drop_last(), counts.drop_last());
    let all = leavers(viewers, counts);
    assert(all.contains(name) <==> before.contains(name) || (all.len() > before.len()
        && viewers[end].session@ == name)) by {
        if before.contains(name) {
            let k = choose|k: int| 0 <= k < before.len() && before[k] == name;
            assert(all[k] == name);
        }
        if all.len() > before.len() {
            assert(all[all.len() - 1] == viewers[end].session@);
        }
    }
    if i < end {
        assert forall|j: int, k: int| 0 <= j < k < end implies (
        #[trigger] viewers.drop_last()[j]).session@ != (#[trigger] viewers.drop_last()[k]).session@ by {
            assert(viewers[j].session@ != viewers[k].session@);
        }
        whoever_left_is_found(viewers.drop_last(), counts.drop_last(), i);
        assert(viewers[i].session@ != viewers[end].session@);
    } else {
        if before.contains(name) {
            let k = leavers_were_watching(viewers.drop_last(), counts.drop_last(), name);
            assert(viewers[k].session@ != viewers[end].session@);
        }
    }
}

/// Nobody is found to have left who was not watching.
pub proof fn leavers_were_watching(
    viewers: Seq<Viewer>,
    counts: Seq<Result<u64, SignalError>>,
    name: Seq<char>,
) -> (i: int)
    requires
        counts.len() == viewers.len(),
        leavers(viewers, counts).contains(name),
    ensures
        0 <= i < viewers.len(),
        viewers[i].session@ == name,
    decreases viewers.len(),
{
    let before = leavers(viewers.drop_last(), counts.drop_last());
    if before.contains(name) {
        leavers_were_watching(viewers.drop_last(), counts.drop_last(), name)
    } else {
        viewers.len() - 1
    }
}

/// What is fresh is taken in the order in which it is listed: whatever else is listed after that
/// comes after it.
pub proof fn fresh_keeps_the_order(
    listed: Seq<Seq<char>>,
    more: Seq<Seq<char>>,
    known: Set<Seq<char>>,
)
    ensures
        fresh(listed, known).is_prefix_of(fresh(listed + more, known)),
    decreases more.len(),
{
    let first = fresh(listed, known);
    let all = fresh(listed + more, known);
    if more.len() == 0 {
        assert(listed + more =~= listed);
    } else {
        fresh_keeps_the_order(listed, more.drop_last(), known);
        let before = fresh(listed + more.drop_last(), known);
        assert((listed + more).drop_last() =~= listed + more.drop_last());
        assert(before.take(first.len() as int) =~= all.take(first.len() as int));
    }
}

/// Whoever is asked in is listed, neither watches nor is being connected to, is asked in to the
/// link, and is asked in once, and in the order in which what is fresh is listed.
pub proof fn only_strangers_are_asked_in(
    before: Host,
    after: Host,
    listed: Seq<Seq<char>>,
    now: u64,
    requests: Seq<HandshakeRequest>,
    notice: Option<Notice>,
)
    requires
        greets(before, after, listed, now, requests, notice),
    ensures
        forall|i: int|
            0 <= i < requests.len() ==> {
                let name = (#[trigger] requests[i]).session_id@;
                &&& requests[i].link_id@ == before.link()
                &&& listed.contains(name)
                &&& !before.waiting().contains(name)
                &&& after.waiting().contains(name)
                &&& forall|j: int|
                    0 <= j < before.audience().len() ==> (#[trigger] before.audience()[j]).session@
                        != name
            },
        forall|i: int, j: int|
            0 <= i < j < requests.len() ==> (#[trigger] requests[i]).session_id@ != (
            #[trigger] requests[j]).session_id@,
        after.waiting().len() == before.waiting().len() + requests.len(),
        forall|i: int|
            0 <= i < before.waiting().len() ==> #[trigger] after.waiting()[i]
                == before.waiting()[i],
        requests.len() > 0 ==> before.audience().len() < 8,
        forall|i: int|
            0 <= i < requests.len() ==> (#[trigger] requests[i]).session_id@ == fresh(
                listed,
                before.known(),
            )[i] && after.waiting()[before.waiting().len() + i] == requests[i].session_id@,
        after.link() == before.link(),
        after.audience() == before.audience(),
        after.packets() == before.packets(),
{
    let new = fresh(listed, before.known());
    let sessions = sessions_of(before.audience());
    fresh_is_listed_and_unknown(listed, before.known());
    assert forall|i: int| 0 <= i < requests.len() implies {
        let name = (#[trigger] requests[i]).session_id@;
        &&& requests[i].link_id@ == before.link()
        &&& listed.contains(name)
        &&& !before.waiting().contains(name)
        &&& after.waiting().contains(name)
        &&& forall|j: int|
            0 <= j < before.audience().len() ==> (#[trigger] before.audience()[j]).session@ != name
    } by {
        let name = requests[i].session_id@;
        assert(new[i] == name);
        assert(new.contains(name));
        contains_in_either(before.waiting(), new, name);
        assert(!before.known().contains(name));
        assert(!before.waiting().to_set().contains(name));
        assert forall|j: int| 0 <= j < before.audience().len() implies (
        #[trigger] before.audience()[j]).session@ != name by {
            assert(sessions[j] == before.audience()[j].session@);
            assert(sessions.to_set().contains(sessions[j]));
        }
    }
    assert forall|i: int, j: int| 0 <= i < j < requests.len() implies (
    #[trigger] requests[i]).session_id@ != (#[trigger] requests[j]).session_id@ by {
        assert(new[i] != new[j]);
    }
}

/// That there are too many viewers is only said while there are eight or more, of the first who is
/// listed, does not watch and is not being connected to.
pub proof fn warnings_are_of_strangers(
    before: Host,
    after: Host,
    listed: Seq<Seq<char>>,
    now: u64,
    requests: Seq<HandshakeRequest>,
    told: Notice,
)
    requires
        greets(before, after, listed, now, requests, Some(told)),
    ensures
        before.audience().len() >= 8,
        told.news is AtCapacity,
        listed.contains(told.session@),
        told.session@ == fresh(listed, before.known())[0],
        !before.waiting().contains(told.session@),
        forall|j: int|
            0 <= j < before.audience().len() ==> (#[trigger] before.audience()[j]).session@
                != told.session@,
        after.warned() == Some(now),
{
    let new = fresh(listed, before.known());
    let sessions = sessions_of(before.audience());
    fresh_is_listed_and_unknown(listed, before.known());
    assert(new.contains(new[0]));
    assert(!before.waiting().to_set().contains(new[0]));
    assert forall|j: int| 0 <= j < before.audience().len() implies (
    #[trigger] before.audience()[j]).session@ != told.session@ by {
        assert(sessions[j] == before.audience()[j].session@);
        assert(sessions.to_set().contains(sessions[j]));
    }
}

/// When somebody is listed who finds too many viewers, that is said exactly if it was never said
/// before, or thirty seconds ago or more. What is not said changes nothing.
pub proof fn warnings_keep_their_distance(
    before: Host,
    after: Host,
    listed: Seq<Seq<char>>,
    now: u64,
    requests: Seq<HandshakeRequest>,
    notice: Option<Notice>,
    name: Seq<char>,
)
    requires
        greets(before, after, listed, now, requests, notice),
        before.audience().len() >= 8,
        listed.contains(name),
        !sessions_of(before.audience()).contains(name),
        !before.waiting().contains(name),
    ensures
        notice is Some <==> match before.warned() {
            None => true,
            Some(last) => now >= last + 30_000_000_000,
        },
        notice is None ==> after.warned() == before.warned(),
        notice is Some ==> after.warned() == Some(now),
{
    let new = fresh(listed, before.known());
    fresh_is_listed_and_unknown(listed, before.known());
    assert(!before.known().contains(name));
    assert(new.contains(name));
}

/// Where nobody is listed but those who watch or are being connected to, nothing is said and
/// nothing changes.
pub proof fn acquaintances_are_left_alone(
    before: Host,
    after: Host,
    listed: Seq<Seq<char>>,
    now: u64,
    requests: Seq<HandshakeRequest>,
    notice: Option<Notice>,
)
    requires
        greets(before, after, listed, now, requests, notice),
        forall|i: int|
            0 <= i < listed.len() ==> sessions_of(before.audience()).contains(#[trigger] listed[i])
                || before.waiting().contains(listed[i]),
    ensures
        requests.len() == 0,
        notice is None,
        after.waiting() == before.waiting(),
        after.warned() == before.warned(),
{
    let new = fresh(listed, before.known());
    fresh_is_listed_and_unknown(listed, before.known());
    if new.len() > 0 {
        assert(new.contains(new[0]));
        let i = choose|i: int| 0 <= i < listed.len() && listed[i] == new[0];
        assert(sessions_of(before.audience()).contains(listed[i]) || before.waiting().contains(
            listed[i],
        ));
        assert(sessions_of(before.audience()).to_set().contains(listed[i])
            || before.waiting().to_set().contains(listed[i]));
    }
    assert(before.waiting() + new =~= before.waiting());
}

/// Of viewers that differ, taking away the one with a name leaves those with another.
proof fn taking_away_is_choosing(viewers: Seq<Viewer>, name: Seq<char>)
    requires
        sessions_of(viewers).no_duplicates(),
    ensures
        without(viewers, name) == viewers.filter(|viewer: Viewer| viewer.session@ != name),
    decreases viewers.len(),
{
    let keep = |viewer: Viewer| viewer.session@ != name;
    let sessions = sessions_of(viewers);
    reveal(Seq::filter);
    if viewers.len() > 0 {
        let earlier = viewers.drop_last();
        let end = viewers.len() - 1;
        assert(sessions_of(earlier) =~= sessions.drop_last());
        taking_away_is_choosing(earlier, name);
        assert(sessions[end] == viewers[end].session@);
        if viewers[end].session@ == name {
            assert(sessions.contains(sessions[end]));
            assert(sessions.index_of(name) == end);
            assert(viewers.remove(end) =~= earlier);
            assert(!sessions_of(earlier).contains(name)) by {
                if sessions_of(earlier).contains(name) {
                    let k = choose|k: int|
                        0 <= k < sessions_of(earlier).len() && sessions_of(earlier)[k] == name;
                    assert(sessions[k] == sessions[end]);
                }
            }
        } else if sessions.contains(name) {
            let at = sessions.index_of(name);
            assert(sessions[at] == name);
            assert(sessions_of(earlier)[at] == name);
            assert(sessions_of(earlier).contains(name));
            let found = sessions_of(earlier).index_of(name);
            assert(sessions_of(earlier)[found] == name);
            assert(sessions[found] == name);
            assert(viewers.remove(at) =~= earlier.remove(at).push(viewers[end]));
        } else {
            if sessions_of(earlier).contains(name) {
                let k = choose|k: int|
                    0 <= k < sessions_of(earlier).len() && sessions_of(earlier)[k] == name;
                assert(sessions[k] == name);
            }
            assert(viewers =~= earlier.push(viewers[end]));
        }
    }
}

/// Choosing twice is choosing what is wanted both times.
proof fn choosing_twice(
    viewers: Seq<Viewer>,
    one: spec_fn(Viewer) -> bool,
    other: spec_fn(Viewer) -> bool,
    both: spec_fn(Viewer) -> bool,
)
    requires
        forall|viewer: Viewer| #[trigger] both(viewer) == (one(viewer) && other(viewer)),
    ensures
        viewers.filter(one).filter(other) == viewers.filter(both),
    decreases viewers.len(),
{
    reveal(Seq::filter);
    if viewers.len() > 0 {
        choosing_twice(viewers.drop_last(), one, other, both);
        let last = viewers.last();
        let kept = viewers.drop_last().filter(one);
        assert(both(last) == (one(last) && other(last)));
        if one(last) {
            assert(kept.push(last).drop_last() =~= kept);
        }
    }
}

/// Those who stay are those whose sessions were not named, in the order in which they came.
pub proof fn whoever_stays_keeps_the_place(viewers: Seq<Viewer>, gone: Seq<Seq<char>>)
    requires
        sessions_of(viewers).no_duplicates(),
    ensures
        staying(viewers, gone) == viewers.filter(
            |viewer: Viewer| !gone.contains(viewer.session@),
        ),
    decreases gone.len(),
{
    let keep = |viewer: Viewer| !gone.contains(viewer.session@);
    if gone.len() == 0 {
        assert forall|viewer: Viewer| #[trigger] keep(viewer) by {}
        everybody_may_be_chosen(viewers, keep);
    } else {
        let before = gone.drop_last();
        let name = gone.last();
        let one = |viewer: Viewer| !before.contains(viewer.session@);
        let other = |viewer: Viewer| viewer.session@ != name;
        whoever_stays_keeps_the_place(viewers, before);
        only_the_named_go(viewers, before);
        taking_away_is_choosing(staying(viewers, before), name);
        assert forall|viewer: Viewer| #[trigger] keep(viewer) == (one(viewer) && other(viewer)) by {
            let session = viewer.session@;
            if gone.contains(session) && session != name {
                let k = choose|k: int| 0 <= k < gone.len() && gone[k] == session;
                assert(before[k] == session);
            }
            if before.contains(session) {
                let k = choose|k: int| 0 <= k < before.len() && before[k] == session;
                assert(gone[k] == session);
            }
            assert(gone[gone.len() - 1] == name);
        }
        choosing_twice(viewers, one, other, keep);
    }
}

/// Where everybody is wanted, everybody is chosen.
proof fn everybody_may_be_chosen(viewers: Seq<Viewer>, keep: spec_fn(Viewer) -> bool)
    requires
        forall|viewer: Viewer| #[trigger] keep(viewer),
    ensures
        viewers.filter(keep) == viewers,
    decreases viewers.len(),
{
    reveal(Seq::filter);
    if viewers.len() > 0 {
        everybody_may_be_chosen(viewers.drop_last(), keep);
        assert(keep(viewers.last()));
        assert(viewers =~= viewers.drop_last().push(viewers.last()));
    }
}

/// Viewers go one at a time: of each who goes it is said once, every time there is one less than
/// before, and what is said last is how many stay.
pub proof fn viewers_go_one_at_a_time(viewers: Seq<Viewer>, gone: Seq<Seq<char>>)
    requires
        sessions_of(viewers).no_duplicates(),
        viewers.len() <= usize::MAX,
    ensures
        farewells(viewers, gone).len() + staying(viewers, gone).len() == viewers.len(),
        forall|k: int|
            0 <= k < farewells(viewers, gone).len() ==> (#[trigger] farewells(viewers, gone)[k]).1
                == News::Left((viewers.len() - 1 - k) as usize),
        forall|k: int|
            0 <= k < farewells(viewers, gone).len() ==> gone.contains(
                (#[trigger] farewells(viewers, gone)[k]).0,
            ) && sessions_of(viewers).contains(farewells(viewers, gone)[k].0),
        forall|j: int, k: int|
            0 <= j < k < farewells(viewers, gone).len() ==> (#[trigger] farewells(
                viewers,
                gone,
            )[j]).0 != (#[trigger] farewells(viewers, gone)[k]).0,
    decreases gone.len(),
{
    if gone.len() > 0 {
        let earlier = gone.drop_last();
        let name = gone.last();
        let said = farewells(viewers, earlier);
        let all = farewells(viewers, gone);
        let before = staying(viewers, earlier);
        viewers_go_one_at_a_time(viewers, earlier);
        only_the_named_go(viewers, earlier);
        if sessions_of(before).contains(name) {
            let at = sessions_of(before).index_of(name);
            assert(sessions_of(before)[at] == before[at].session@);
            assert(before.contains(before[at]));
            let k = choose|k: int| 0 <= k < viewers.len() && viewers[k] == before[at];
            assert(sessions_of(viewers)[k] == name);
        }
        assert forall|k: int| 0 <= k < all.len() implies gone.contains((#[trigger] all[k]).0)
            && sessions_of(viewers).contains(all[k].0) by {
            if k < said.len() {
                assert(all[k] == said[k]);
                let j = choose|j: int| 0 <= j < earlier.len() && earlier[j] == said[k].0;
                assert(gone[j] == said[k].0);
            } else {
                assert(gone[gone.len() - 1] == name);
            }
        }
        assert forall|j: int, k: int| 0 <= j < k < all.len() implies (#[trigger] all[j]).0 != (
        #[trigger] all[k]).0 by {
            assert(all[j] == said[j]);
            if k < said.len() {
                assert(all[k] == said[k]);
            } else {
                assert(earlier.contains(said[j].0));
                assert(before.contains(before[sessions_of(before).index_of(name)]));
            }
        }
    }
}

/// What is said of some viewers and then of others is what is said of all of them in a row, and so
/// it is with those who are given up. Of one viewer, every one of its news is said.
pub proof fn viewers_are_looked_at_in_a_row(
    first: Seq<Viewer>,
    second: Seq<Viewer>,
    one: Viewer,
    now: u64,
)
    ensures
        all_news(first + second) == all_news(first) + all_news(second),
        departing(first + second, now) == departing(first, now) + departing(second, now),
        all_news(seq![one]) == viewer::about(one.session@, one.news()),
        departing(seq![one], now).len() == one.reasons(now),
        forall|k: int|
            0 <= k < one.reasons(now) ==> #[trigger] departing(seq![one], now)[k] == one.session@,
    decreases second.len(),
{
    let alone = seq![one];
    assert(alone.drop_last() =~= Seq::empty());
    assert(all_news(alone.drop_last()) =~= Seq::empty());
    assert(departing(alone.drop_last(), now) =~= Seq::empty());
    assert(all_news(alone) =~= viewer::about(one.session@, one.news()));
    if second.len() == 0 {
        assert(first + second =~= first);
        assert(all_news(first) + all_news(second) =~= all_news(first));
        assert(departing(first, now) + departing(second, now) =~= departing(first, now));
    } else {
        viewers_are_looked_at_in_a_row(first, second.drop_last(), one, now);
        assert((first + second).drop_last() =~= first + second.drop_last());
        assert(all_news(first + second) =~= all_news(first) + all_news(second));
        assert(departing(first + second, now) =~= departing(first, now) + departing(second, now));
    }
}

/// A viewer that is paused is sent nothing and stays as it is. One that is not is sent something,
/// and nothing of it changes but the end of its connection.
pub proof fn pausing_decides_what_is_sent(
    before: Viewer,
    after: Viewer,
    media: MediaKind,
    sender: SenderState,
    delivery: Option<Result<Sample, SignalError>>,
)
    requires
        reaches(before, after, media, sender, delivery),
    ensures
        delivery is None <==> before.paused,
        before.paused ==> after == before,
        after.session == before.session,
        after.leave_baseline == before.leave_baseline,
        after.grace_until == before.grace_until,
        after.paused == before.paused,
        after.publisher.control == before.publisher.control,
        after.publisher.events == before.publisher.events,
{
}

/// What is sent is what there was to send: the bytes of the packet.
pub proof fn what_is_sent_is_what_there_was(
    before: Viewer,
    after: Viewer,
    media: MediaKind,
    sender: SenderState,
    sample: Sample,
)
    requires
        reaches(before, after, media, sender, Some(Ok(sample))),
    ensures
        match media {
            MediaKind::Video(packet) => encode::payload(sample.data) == encode::payload(packet.bytes),
            MediaKind::Audio(bytes) => encode::payload(sample.data) == encode::payload(bytes),
        },
{
}

/// A viewer that paused, was looked at, asked to go on and was looked at again is sent the next
/// packet. One that went on, was looked at, asked to pause and was looked at again is not.
pub proof fn whoever_goes_on_is_sent_the_next(
    first: Viewer,
    between: Viewer,
    second: Viewer,
    after: Viewer,
    sent: Viewer,
    command: webrtc::Command,
    times: (u64, u64),
    media: MediaKind,
    sender: SenderState,
    delivery: Option<Result<Sample, SignalError>>,
)
    requires
        !first.publisher.control.left,
        first.settles(&between, times.0),
        second.paused == between.paused,
        second.publisher.control == between.publisher.control.after(Some(command)),
        second.settles(&after, times.1),
        reaches(after, sent, media, sender, delivery),
    ensures
        command == webrtc::Command::Resume ==> delivery is Some,
        command == webrtc::Command::Pause ==> delivery is None,
{
}

/// Times fit each other: two seconds pass between looks at who wants to watch and at who has left,
/// five until whoever is out of reach is given up, thirty between warnings, one after a picture
/// could not be captured, and a packet holds as much sound as is heard until the next, half of
/// which is waited for where there is too little.
pub proof fn times_fit_each_other()
    ensures
        SESSION_POLL == 2 * 1_000_000_000,
        LEAVE_POLL == 2 * 1_000_000_000,
        AUDIO_TICK * crate::audio::AUDIO_CLOCK_RATE == crate::audio::SAMPLES_PER_PACKET
            * 1_000_000_000,
        AUDIO_TICK == webrtc::AUDIO_PACKET_MILLIS * 1_000_000,
        CAP_WARN_COOLDOWN == 30 * 1_000_000_000,
        CAPTURE_PAUSE * 1_000_000 == 1_000_000_000,
        RECOVER_GRACE == 5 * 1_000_000_000,
        crate::audio::DRAIN_PAUSE * 2 == webrtc::AUDIO_PACKET_MILLIS,
        crate::capture::RETRY_PAUSE == CAPTURE_PAUSE,
        REPORT_EVERY == 300,
{
}

/// Those who left among some viewers and then among others are those who left among all of them, in
/// a row.
pub proof fn leavers_are_found_in_a_row(
    first: Seq<Viewer>,
    second: Seq<Viewer>,
    counts: Seq<Result<u64, SignalError>>,
    more: Seq<Result<u64, SignalError>>,
)
    requires
        counts.len() == first.len(),
        more.len() == second.len(),
    ensures
        leavers(first + second, counts + more) == leavers(first, counts) + leavers(second, more),
    decreases second.len(),
{
    if second.len() == 0 {
        assert(first + second =~= first);
        assert(counts + more =~= counts);
        assert(leavers(first, counts) + leavers(second, more) =~= leavers(first, counts));
    } else {
        leavers_are_found_in_a_row(first, second.drop_last(), counts, more.drop_last());
        assert((first + second).drop_last() =~= first + second.drop_last());
        assert((counts + more).drop_last() =~= counts + more.drop_last());
        assert(leavers(first + second, counts + more) =~= leavers(first, counts) + leavers(
            second,
            more,
        ));
    }
}

/// What is said of those who go comes in the order in which they are named.
pub proof fn farewells_keep_the_order(
    viewers: Seq<Viewer>,
    gone: Seq<Seq<char>>,
    more: Seq<Seq<char>>,
)
    ensures
        farewells(viewers, gone).is_prefix_of(farewells(viewers, gone + more)),
    decreases more.len(),
{
    if more.len() == 0 {
        assert(gone + more =~= gone);
    } else {
        farewells_keep_the_order(viewers, gone, more.drop_last());
        let size = farewells(viewers, gone).len() as int;
        let before = farewells(viewers, gone + more.drop_last());
        assert((gone + more).drop_last() =~= gone + more.drop_last());
        assert(before.take(size) =~= farewells(viewers, gone + more).take(size));
    }
}

} // verus!
