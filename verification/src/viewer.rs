//! Those who watch: what is known of each, when one is given up, and what is said of them.
//!
//! Times are readings of one clock, in nanoseconds.

use crate::text;
use crate::webrtc::{Publisher, SessionEvent};
use vstd::prelude::*;

verus! {

/// How long a viewer may be out of reach before it is given up.
pub const RECOVER_GRACE: u64 = 5_000_000_000;

/// How many viewers may watch before nobody else is asked in.
pub const MAX_VIEWERS: usize = 8;

/// Somebody who watches.
pub struct Viewer {
    pub session: String,
    pub publisher: Publisher,
    /// How often the viewer had left when it came.
    pub leave_baseline: u64,
    /// When the viewer is given up, if it is out of reach.
    pub grace_until: Option<u64>,
    pub paused: bool,
}

/// What there is to say of a viewer.
pub enum News {
    /// There are too many others.
    AtCapacity,
    /// The viewer came, and is one of so many.
    Connected(usize),
    /// The connection could not be set up, for this reason.
    HandshakeFailed(String),
    /// The viewer was out of reach and is back.
    Reconnected,
    /// The viewer wants nothing to be sent for now.
    Paused,
    /// The viewer wants something to be sent again.
    Resumed,
    /// The viewer is gone, and so many stay.
    Left(usize),
}

/// What there is to report.
pub struct Notice {
    pub session: String,
    pub news: News,
}

/// What is said of one session.
pub open spec fn about(session: Seq<char>, news: Seq<News>) -> Seq<(Seq<char>, News)> {
    news.map_values(|one: News| (session, one))
}

/// What notices say.
pub open spec fn told(notices: Seq<Notice>) -> Seq<(Seq<char>, News)> {
    notices.map_values(|notice: Notice| (notice.session@, notice.news))
}

/// When a viewer is given up, after the last of what happened to the connection: once it is out
/// of reach it has some time, and none is given again until it was in reach.
pub open spec fn grace_after(
    grace: Option<u64>,
    event: Option<SessionEvent>,
    now: u64,
) -> Option<u64> {
    match event {
        Some(SessionEvent::Disconnected) => if grace is None {
            Some((now + RECOVER_GRACE) as u64)
        } else {
            grace
        },
        Some(SessionEvent::Connected) => None,
        _ => grace,
    }
}

impl Viewer {
    /// The last of what happened to the connection.
    pub open spec fn latest(&self) -> Option<SessionEvent> {
        if self.publisher.events@.len() == 0 {
            None
        } else {
            Some(self.publisher.events@.last())
        }
    }

    /// When the viewer is given up, once what happened was looked at.
    pub open spec fn next_grace(&self, now: u64) -> Option<u64> {
        grace_after(self.grace_until, self.latest(), now)
    }

    /// How many reasons there are to give the viewer up: it said that it leaves, the connection
    /// failed, the time to come back ran out.
    pub open spec fn reasons(&self, now: u64) -> nat {
        if self.publisher.control.left {
            1
        } else {
            let failed: nat = if self.latest() == Some(SessionEvent::Failed) {
                1
            } else {
                0
            };
            let late: nat = if self.next_grace(now) matches Some(deadline) && now >= deadline {
                1
            } else {
                0
            };
            failed + late
        }
    }

    /// What there is to say of the viewer.
    pub open spec fn news(&self) -> Seq<News> {
        if self.publisher.control.left {
            Seq::empty()
        } else {
            let back = if self.latest() == Some(SessionEvent::Connected) && self.grace_until is Some {
                seq![News::Reconnected]
            } else {
                Seq::empty()
            };
            let changed = if self.publisher.control.paused && !self.paused {
                seq![News::Paused]
            } else if !self.publisher.control.paused && self.paused {
                seq![News::Resumed]
            } else {
                Seq::empty()
            };
            back + changed
        }
    }

    /// Whether `after` is the viewer once what happened was looked at. One that left is not
    /// looked at.
    pub open spec fn settles(&self, after: &Viewer, now: u64) -> bool {
        if self.publisher.control.left {
            *after == *self
        } else {
            &&& after.publisher.events@.len() == 0
            &&& *after == (Viewer {
                publisher: Publisher { events: after.publisher.events, ..self.publisher },
                grace_until: self.next_grace(now),
                paused: self.publisher.control.paused,
                ..*self
            })
        }
    }

    /// Looks at what happened to the connection and at what the viewer asked for. How many
    /// reasons there are to give the viewer up, and what there is to say of it.
    pub(crate) fn look(&mut self, now: u64) -> (result: (usize, Vec<Notice>))
        requires
            now + RECOVER_GRACE <= u64::MAX,
        ensures
            old(self).settles(final(self), now),
            result.0 == old(self).reasons(now),
            told(result.1@) == about(old(self).session@, old(self).news()),
            !old(self).publisher.control.left ==> final(self).paused
                == old(self).publisher.control.paused,
    {
        let mut notices: Vec<Notice> = Vec::new();
        if self.publisher.is_left() {
            assert(told(notices@) =~= about(self.session@, self.news()));
            return (1, notices);
        }
        let mut reasons: usize = 0;
        match self.publisher.latest_event() {
            Some(SessionEvent::Failed) => {
                reasons = reasons + 1;
            },
            Some(SessionEvent::Disconnected) => {
                if self.grace_until.is_none() {
                    self.grace_until = Some(now + RECOVER_GRACE);
                }
            },
            Some(SessionEvent::Connected) => {
                if self.grace_until.is_some() {
                    notices.push(
                        Notice { session: self.session.clone(), news: News::Reconnected },
                    );
                }
                self.grace_until = None;
            },
            _ => {},
        }
        if let Some(deadline) = self.grace_until {
            if now >= deadline {
                reasons = reasons + 1;
            }
        }
        let paused = self.publisher.is_paused();
        if paused && !self.paused {
            notices.push(Notice { session: self.session.clone(), news: News::Paused });
        } else if !paused && self.paused {
            notices.push(Notice { session: self.session.clone(), news: News::Resumed });
        }
        self.paused = paused;
        assert(told(notices@) =~= about(old(self).session@, old(self).news()));
        (reasons, notices)
    }
}

/// How many bytes of a session are shown.
pub open spec fn short_length(session: Seq<char>) -> int {
    let size = vstd::utf8::encode_utf8(session).len();
    if size < 8 {
        size as int
    } else {
        8
    }
}

/// Whether a session can be shown in short: the bytes that are shown end with a character.
pub open spec fn shortable(session: Seq<char>) -> bool {
    vstd::utf8::is_char_boundary(vstd::utf8::encode_utf8(session), short_length(session))
}

/// A session in short: the text of its first bytes.
pub open spec fn short(session: Seq<char>) -> Seq<char> {
    vstd::utf8::decode_utf8(vstd::utf8::encode_utf8(session).take(short_length(session)))
}

/// Sessions of ASCII characters can be shown in short, as their first eight characters.
pub proof fn ascii_sessions_are_shortable(session: Seq<char>)
    requires
        vstd::utf8::is_ascii_chars(session),
    ensures
        shortable(session),
        short(session) == if session.len() < 8 {
            session
        } else {
            session.take(8)
        },
{
    let bytes = vstd::utf8::encode_utf8(session);
    let shown = session.take(short_length(session));
    vstd::utf8::is_ascii_chars_encode_utf8(session);
    vstd::utf8::is_ascii_chars_encode_utf8(shown);
    vstd::utf8::encode_utf8_valid_utf8(session);
    vstd::utf8::encode_utf8_decode_utf8(shown);
    assert(vstd::utf8::encode_utf8(shown) =~= bytes.take(short_length(session)));
    vstd::utf8::is_char_boundary_start_end_of_seq(bytes);
    if session.len() > 8 {
        assert(bytes[8] == session[8] as u8);
        vstd::utf8::is_char_boundary_iff_not_is_continuation_byte(bytes, 8);
    } else {
        assert(shown =~= session);
    }
}

/// Where one text follows another, so do their bytes, and a character begins where they meet.
proof fn bytes_meet_between_characters(head: Seq<char>, tail: Seq<char>)
    ensures
        vstd::utf8::encode_utf8(head + tail) == vstd::utf8::encode_utf8(head)
            + vstd::utf8::encode_utf8(tail),
        vstd::utf8::is_char_boundary(
            vstd::utf8::encode_utf8(head + tail),
            vstd::utf8::encode_utf8(head).len() as int,
        ),
    decreases head.len(),
{
    let all = head + tail;
    let bytes = vstd::utf8::encode_utf8(all);
    vstd::utf8::encode_utf8_valid_utf8(all);
    vstd::utf8::is_char_boundary_start_end_of_seq(bytes);
    if head.len() == 0 {
        assert(all =~= tail);
        assert(bytes =~= vstd::utf8::encode_utf8(head) + vstd::utf8::encode_utf8(tail));
    } else {
        let rest = all.drop_first();
        assert(rest =~= head.drop_first() + tail);
        bytes_meet_between_characters(head.drop_first(), tail);
        vstd::utf8::encode_utf8_first_scalar(all);
        assert(all[0] == head[0]);
        assert(bytes =~= vstd::utf8::encode_utf8(head) + vstd::utf8::encode_utf8(tail));
        assert(vstd::utf8::pop_first_scalar(bytes) =~= vstd::utf8::encode_utf8(rest));
    }
}

/// A session in short is how the session begins, and takes up eight bytes, unless the session is
/// shorter.
pub proof fn short_begins_the_session(session: Seq<char>)
    requires
        shortable(session),
    ensures
        short(session).is_prefix_of(session),
        vstd::utf8::encode_utf8(session).len() >= 8 ==> vstd::utf8::encode_utf8(
            short(session),
        ).len() == 8,
        vstd::utf8::encode_utf8(session).len() <= 8 ==> short(session) == session,
{
    let bytes = vstd::utf8::encode_utf8(session);
    let end = short_length(session);
    vstd::utf8::encode_utf8_valid_utf8(session);
    vstd::utf8::encode_utf8_decode_utf8(session);
    vstd::utf8::valid_utf8_split(bytes, end);
    vstd::utf8::decode_utf8_split(bytes, end);
    assert(bytes.subrange(0, end) =~= bytes.take(end));
    vstd::utf8::decode_utf8_encode_utf8(bytes.take(end));
    if bytes.len() <= 8 {
        assert(bytes.take(end) =~= bytes);
    }
}

/// A session that has a character end where its eighth byte does can be shown in short, as what
/// comes before. So can one that is shorter.
pub proof fn whole_characters_can_be_shown(head: Seq<char>, tail: Seq<char>)
    requires
        vstd::utf8::encode_utf8(head).len() == 8 || vstd::utf8::encode_utf8(head).len() < 8
            && tail.len() == 0,
    ensures
        shortable(head + tail),
        short(head + tail) == head,
{
    bytes_meet_between_characters(head, tail);
    let bytes = vstd::utf8::encode_utf8(head + tail);
    let end = vstd::utf8::encode_utf8(head).len() as int;
    assert(short_length(head + tail) == end);
    assert(bytes.take(end) =~= vstd::utf8::encode_utf8(head));
    vstd::utf8::encode_utf8_decode_utf8(head);
}

/// A session in short.
pub fn short_id(session: &str) -> (shown: &str)
    requires
        shortable(session@),
    ensures
        shown@ == short(session@),
{
    let size: usize = session.as_bytes().len();
    let end: usize = if size < 8 {
        size
    } else {
        8
    };
    let shown = session.split_at(end).0;
    proof {
        vstd::utf8::encode_utf8_decode_utf8(shown@);
        assert(vstd::utf8::encode_utf8(shown@) =~= vstd::utf8::encode_utf8(session@).take(
            end as int,
        ));
    }
    shown
}

/// Whether a session can be shown in short.
pub fn can_shorten(session: &str) -> (can: bool)
    ensures
        can == shortable(session@),
{
    let size: usize = session.as_bytes().len();
    session.is_char_boundary(
        if size < 8 {
            size
        } else {
            8
        },
    )
}

impl Notice {
    /// The line that is shown.
    pub open spec fn shown(&self) -> Seq<char> {
        let who = short(self.session@);
        match self.news {
            News::AtCapacity => "[WARN] at "@ + text::decimal(MAX_VIEWERS as nat)
                + " viewers, ignoring "@ + who,
            News::Connected(total) => "[INFO] viewer "@ + who + " connected ("@ + text::decimal(
                total as nat,
            ) + " total)"@,
            News::HandshakeFailed(reason) => "[WARN] handshake for "@ + who + " failed: "@ + reason@
                + "; will re-offer"@,
            News::Reconnected => "[INFO] viewer "@ + who + " reconnected"@,
            News::Paused => "[INFO] viewer "@ + who + " paused"@,
            News::Resumed => "[INFO] viewer "@ + who + " resumed"@,
            News::Left(rest) => "[INFO] viewer "@ + who + " left ("@ + text::decimal(rest as nat)
                + " left)"@,
        }
    }

    /// The line that is shown.
    pub fn line(&self) -> (line: String)
        requires
            shortable(self.session@),
        ensures
            line@ == self.shown(),
    {
        let who = short_id(self.session.as_str());
        let mut line: String;
        match &self.news {
            News::AtCapacity => {
                line = "[WARN] at ".to_owned();
                text::push_decimal(&mut line, MAX_VIEWERS as u64);
                line.append(" viewers, ignoring ");
                line.append(who);
            },
            News::HandshakeFailed(reason) => {
                line = "[WARN] handshake for ".to_owned();
                line.append(who);
                line.append(" failed: ");
                line.append(reason.as_str());
                line.append("; will re-offer");
            },
            News::Connected(total) => {
                line = "[INFO] viewer ".to_owned();
                line.append(who);
                line.append(" connected (");
                text::push_decimal(&mut line, *total as u64);
                line.append(" total)");
            },
            News::Reconnected => {
                line = "[INFO] viewer ".to_owned();
                line.append(who);
                line.append(" reconnected");
            },
            News::Paused => {
                line = "[INFO] viewer ".to_owned();
                line.append(who);
                line.append(" paused");
            },
            News::Resumed => {
                line = "[INFO] viewer ".to_owned();
                line.append(who);
                line.append(" resumed");
            },
            News::Left(rest) => {
                line = "[INFO] viewer ".to_owned();
                line.append(who);
                line.append(" left (");
                text::push_decimal(&mut line, *rest as u64);
                line.append(" left)");
            },
        }
        line
    }

    /// Whether the line is a warning.
    pub fn is_warning(&self) -> (warning: bool)
        ensures
            warning == (self.news is AtCapacity || self.news is HandshakeFailed),
    {
        match self.news {
            News::AtCapacity => true,
            News::HandshakeFailed(_) => true,
            _ => false,
        }
    }
}

/// When a viewer is given up, after several looks: what was last seen to happen, and when.
pub open spec fn grace_over(grace: Option<u64>, looks: Seq<(Option<SessionEvent>, u64)>) -> Option<
    u64,
>
    decreases looks.len(),
{
    if looks.len() == 0 {
        grace
    } else {
        grace_after(grace_over(grace, looks.drop_last()), looks.last().0, looks.last().1)
    }
}

/// Whoever is out of reach has a fixed time to come back, however often that is seen: only a
/// connection that is there again ends it.
pub proof fn time_to_come_back_is_fixed(
    deadline: u64,
    looks: Seq<(Option<SessionEvent>, u64)>,
)
    requires
        forall|i: int|
            0 <= i < looks.len() ==> (#[trigger] looks[i]).0 != Some(SessionEvent::Connected),
    ensures
        grace_over(Some(deadline), looks) == Some(deadline),
    decreases looks.len(),
{
    if looks.len() > 0 {
        let earlier = looks.drop_last();
        assert forall|i: int| 0 <= i < earlier.len() implies (#[trigger] earlier[i]).0 != Some(
            SessionEvent::Connected,
        ) by {
            assert(earlier[i] == looks[i]);
        }
        time_to_come_back_is_fixed(deadline, earlier);
        assert(looks[looks.len() - 1].0 != Some(SessionEvent::Connected));
    }
}

/// Whoever is back is not given up for having been away, whenever that was.
pub proof fn whoever_is_back_stays(viewer: Viewer, now: u64)
    requires
        !viewer.publisher.control.left,
        viewer.latest() == Some(SessionEvent::Connected),
    ensures
        viewer.reasons(now) == 0,
        viewer.next_grace(now) is None,
{
}

/// A viewer that goes out of reach is not given up before its time has passed, and is then.
pub proof fn given_up_when_time_has_passed(viewer: Viewer, lost: u64, now: u64)
    requires
        !viewer.publisher.control.left,
        lost + RECOVER_GRACE <= u64::MAX,
        viewer.grace_until == grace_after(None, Some(SessionEvent::Disconnected), lost),
        viewer.latest() is None || viewer.latest() == Some(SessionEvent::Disconnected),
    ensures
        viewer.reasons(now) > 0 <==> now >= lost + RECOVER_GRACE,
{
}

/// After a look at a viewer that has not left, it is paused exactly if its last word was to pause,
/// whatever it was before. Who it is, what it asked for and where its stamps are stays as it was,
/// all that happened is taken in, and a second look has nothing more to say.
pub proof fn a_look_goes_by_the_last_word(viewer: Viewer, after: Viewer, now: u64)
    requires
        viewer.settles(&after, now),
        !viewer.publisher.control.left,
    ensures
        after.paused == viewer.publisher.control.paused,
        after.publisher.control == viewer.publisher.control,
        after.publisher.rtp_clock == viewer.publisher.rtp_clock,
        after.publisher.rtp_step == viewer.publisher.rtp_step,
        after.publisher.audio_clock == viewer.publisher.audio_clock,
        after.publisher.frame_interval == viewer.publisher.frame_interval,
        after.session == viewer.session,
        after.leave_baseline == viewer.leave_baseline,
        after.publisher.events@.len() == 0,
        after.news().len() == 0,
{
}

/// A viewer that was told to be paused and then to go on is not paused after the next look, and
/// one that was told to go on and then to pause is, however often it was looked at in between.
pub proof fn a_later_word_undoes_an_earlier(
    first: Viewer,
    between: Viewer,
    second: Viewer,
    after: Viewer,
    times: (u64, u64),
)
    requires
        first.settles(&between, times.0),
        second.settles(&after, times.1),
        second.paused == between.paused,
        !first.publisher.control.left,
        !second.publisher.control.left,
    ensures
        first.publisher.control.paused && !second.publisher.control.paused ==> between.paused
            && !after.paused && second.news().contains(News::Resumed),
        !first.publisher.control.paused && second.publisher.control.paused ==> !between.paused
            && after.paused && second.news().contains(News::Paused),
        first.publisher.control.paused == second.publisher.control.paused ==> after.paused
            == between.paused && !second.news().contains(News::Paused) && !second.news().contains(
            News::Resumed,
        ),
{
    what_is_said_of_a_viewer(second);
}

/// The time to come back starts with the look that finds a viewer out of reach, lasts five
/// seconds, and ends with the look that finds it in reach.
pub proof fn time_starts_when_reach_is_lost(viewer: Viewer, after: Viewer, now: u64)
    requires
        viewer.settles(&after, now),
        !viewer.publisher.control.left,
        now + 5_000_000_000 <= u64::MAX,
    ensures
        viewer.publisher.events@.len() == 0 ==> after.grace_until == viewer.grace_until,
        viewer.publisher.events@.len() > 0 ==> match viewer.publisher.events@.last() {
            SessionEvent::Connected => after.grace_until is None,
            SessionEvent::Disconnected => after.grace_until == match viewer.grace_until {
                Some(deadline) => Some(deadline),
                None => Some((now + 5_000_000_000) as u64),
            },
            _ => after.grace_until == viewer.grace_until,
        },
{
}

/// A viewer is given up if it left, if the connection failed last, or if its time to come back
/// has passed without its being back. There is no other reason, and there are two only where the
/// connection failed and the time has passed.
pub proof fn there_are_three_reasons(viewer: Viewer, now: u64)
    requires
        now + RECOVER_GRACE <= u64::MAX,
    ensures
        viewer.publisher.control.left ==> viewer.reasons(now) > 0,
        !viewer.publisher.control.left && viewer.publisher.events@.len() > 0 ==> (viewer.reasons(
            now,
        ) > 0 <==> viewer.publisher.events@.last() == SessionEvent::Failed || (
        viewer.grace_until matches Some(deadline) && now >= deadline
            && viewer.publisher.events@.last() != SessionEvent::Connected)),
        !viewer.publisher.control.left && viewer.publisher.events@.len() == 0 ==> (viewer.reasons(
            now,
        ) > 0 <==> (viewer.grace_until matches Some(deadline) && now >= deadline)),
        viewer.reasons(now) <= 2,
        viewer.reasons(now) == 2 <==> !viewer.publisher.control.left
            && viewer.publisher.events@.len() > 0 && viewer.publisher.events@.last()
            == SessionEvent::Failed && (viewer.grace_until matches Some(deadline) && now
            >= deadline),
{
}

/// A viewer that left is left alone, and nothing more is said of it.
pub proof fn whoever_left_is_left_alone(viewer: Viewer, after: Viewer, now: u64)
    requires
        viewer.settles(&after, now),
        viewer.publisher.control.left,
    ensures
        after == viewer,
        viewer.news().len() == 0,
        viewer.reasons(now) > 0,
{
}

/// That a viewer pauses or goes on is said exactly if that is not how it was before. That it is
/// back is said exactly if it was out of reach and in reach last, and before the rest. Nothing is
/// said twice, and nothing else is said.
pub proof fn what_is_said_of_a_viewer(viewer: Viewer)
    requires
        !viewer.publisher.control.left,
    ensures
        viewer.news().contains(News::Paused) <==> viewer.publisher.control.paused && !viewer.paused,
        viewer.news().contains(News::Resumed) <==> !viewer.publisher.control.paused
            && viewer.paused,
        viewer.news().contains(News::Reconnected) <==> viewer.publisher.events@.len() > 0
            && viewer.publisher.events@.last() == SessionEvent::Connected && viewer.grace_until
            is Some,
        viewer.news().contains(News::Reconnected) ==> viewer.news()[0] == News::Reconnected,
        viewer.news().no_duplicates(),
        forall|i: int|
            0 <= i < viewer.news().len() ==> (#[trigger] viewer.news()[i] == News::Paused
                || viewer.news()[i] == News::Resumed || viewer.news()[i] == News::Reconnected),
{
    let news = viewer.news();
    if news.len() > 0 {
        assert(news[0] == news.first());
        assert(news.contains(news[0]));
        assert(news.contains(news[news.len() - 1]));
    }
}

/// Notices and what is said of a session name the session with each of the news, in order.
pub proof fn every_notice_is_told(notices: Seq<Notice>, session: Seq<char>, news: Seq<News>, i: int)
    ensures
        told(notices).len() == notices.len(),
        0 <= i < notices.len() ==> told(notices)[i].0 == notices[i].session@ && told(notices)[i].1
            == notices[i].news,
        about(session, news).len() == news.len(),
        0 <= i < news.len() ==> about(session, news)[i].0 == session && about(session, news)[i].1
            == news[i],
{
}

/// Two notices of the same news read the same but for the sessions in them.
pub proof fn lines_differ_in_the_session_alone(one: Notice, other: Notice) -> (around: (
    Seq<char>,
    Seq<char>,
))
    requires
        one.news == other.news,
    ensures
        one.shown() == around.0 + short(one.session@) + around.1,
        other.shown() == around.0 + short(other.session@) + around.1,
{
    let around = match one.news {
        News::AtCapacity => (
            "[WARN] at "@ + text::decimal(MAX_VIEWERS as nat) + " viewers, ignoring "@,
            Seq::empty(),
        ),
        News::Connected(total) => (
            "[INFO] viewer "@,
            " connected ("@ + text::decimal(total as nat) + " total)"@,
        ),
        News::HandshakeFailed(reason) => (
            "[WARN] handshake for "@,
            " failed: "@ + reason@ + "; will re-offer"@,
        ),
        News::Reconnected => ("[INFO] viewer "@, " reconnected"@),
        News::Paused => ("[INFO] viewer "@, " paused"@),
        News::Resumed => ("[INFO] viewer "@, " resumed"@),
        News::Left(rest) => (
            "[INFO] viewer "@,
            " left ("@ + text::decimal(rest as nat) + " left)"@,
        ),
    };
    assert(one.shown() =~= around.0 + short(one.session@) + around.1);
    assert(other.shown() =~= around.0 + short(other.session@) + around.1);
    around
}

/// What a line says before it comes to how many there are, or why something failed: warnings
/// begin as such, everything else as information, and the line ends with the number or the reason.
pub proof fn lines_end_with_the_news(notice: Notice) -> (before: Seq<char>)
    ensures
        match notice.news {
            News::AtCapacity => {
                &&& "[WARN] at 8 viewers, "@.is_prefix_of(notice.shown())
                &&& notice.shown() == before + short(notice.session@)
            },
            News::Connected(total) => notice.shown() == before + " connected ("@ + text::decimal(
                total as nat,
            ) + " total)"@ && "[INFO] "@.is_prefix_of(before),
            News::HandshakeFailed(reason) => notice.shown() == before + " failed: "@ + reason@
                + "; will re-offer"@ && "[WARN] "@.is_prefix_of(before),
            News::Reconnected => notice.shown() == before + " reconnected"@
                && "[INFO] "@.is_prefix_of(before),
            News::Paused => notice.shown() == before + " paused"@ && "[INFO] "@.is_prefix_of(
                before,
            ),
            News::Resumed => notice.shown() == before + " resumed"@ && "[INFO] "@.is_prefix_of(
                before,
            ),
            News::Left(rest) => notice.shown() == before + " left ("@ + text::decimal(rest as nat)
                + " left)"@ && "[INFO] "@.is_prefix_of(before),
        },
{
    let who = short(notice.session@);
    reveal_strlit("[INFO] ");
    reveal_strlit("[WARN] ");
    reveal_strlit("[INFO] viewer ");
    reveal_strlit("[WARN] handshake for ");
    reveal_strlit("[WARN] at ");
    reveal_strlit(" viewers, ignoring ");
    reveal_strlit("[WARN] at 8 viewers, ");
    match notice.news {
        News::AtCapacity => {
            let before = "[WARN] at "@ + text::decimal(MAX_VIEWERS as nat) + " viewers, ignoring "@;
            assert(text::decimal(8) =~= seq!['8']);
            assert("[WARN] at 8 viewers, "@ =~= before.take(21));
            assert(notice.shown().take(21) =~= before.take(21));
            before
        },
        News::HandshakeFailed(_) => {
            let before = "[WARN] handshake for "@ + who;
            assert("[WARN] "@ =~= before.take(7));
            before
        },
        _ => {
            let before = "[INFO] viewer "@ + who;
            assert("[INFO] "@ =~= before.take(7));
            before
        },
    }
}

} // verus!
