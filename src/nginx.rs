//! Classification of access-log lines in the combined layout
//! `ip - - [date] "METHOD uri protocol" status size "referer" "user-agent"`.

use vstd::prelude::*;
use crate::clock::{log_time_of, parse_log_time, time_from, LogTime};
use crate::signatures::{find_signature, first_match, PatternError, Signature};
use crate::text::{
    is_space, join_from, joined, split_tokens, strip_quotes, tokens_of, trim, trimmed, views,
    without_quotes,
};

verus! {

/// Position of the address token.
pub const ADDRESS_TOKEN: usize = 0;

/// Position of the first of the two tokens of the date.
pub const DATE_TOKEN: usize = 3;

/// Position of the request target.
pub const URI_TOKEN: usize = 6;

/// Position of the first token of the User-Agent.
pub const AGENT_TOKEN: usize = 11;

/// Which signal marked a line as bot traffic.
#[derive(Clone, Copy, Debug, PartialEq, Eq, Structural)]
pub enum Trigger {
    UriPath,
    UserAgent,
}

/// The address family of a source address.
#[derive(Clone, Copy, Debug, PartialEq, Eq, Structural)]
pub enum AddrFamily {
    V4,
    V6,
}

/// A source address as written in the log, with the family it is read as.
/// The literal itself is carried as text; turning it into an address value,
/// and rejecting a malformed one, is left to the caller.
#[derive(Clone, Debug)]
pub struct Address {
    pub family: AddrFamily,
    pub text: String,
}

/// One request classified as bot traffic.
#[derive(Clone, Debug)]
pub struct BotData {
    pub name: String,
    pub ip: Address,
    pub date: LogTime,
    pub uri: String,
    pub user_agent: String,
    pub triggered_on: Trigger,
}

/// What a line held: its address, and its record where it is bot traffic.
#[derive(Clone, Debug)]
pub struct LineOutcome {
    pub address: Address,
    pub record: Option<BotData>,
}

/// Why a line could not be classified. Each ends the whole run.
#[derive(Debug)]
pub enum LineError {
    /// The line has fewer tokens than the layout needs.
    Truncated { tokens: usize },
    /// The date field is no date of the layout.
    BadDate { text: String, cause: chrono::ParseError },
    /// A signature's pattern does not compile.
    BadPattern(PatternError),
}

/// A record as plain values.
pub struct RecordView {
    pub name: Seq<char>,
    pub family: AddrFamily,
    pub ip: Seq<char>,
    pub date: LogTime,
    pub uri: Seq<char>,
    pub user_agent: Seq<char>,
    pub trigger: Trigger,
}

/// What a classified line holds, as plain values.
pub struct LineView {
    pub family: AddrFamily,
    pub ip: Seq<char>,
    pub record: Option<RecordView>,
}

/// Why a line fails, as plain values.
pub enum Failure {
    Truncated,
    BadDate(Seq<char>),
    BadPattern(Seq<char>),
}

impl View for BotData {
    type V = RecordView;

    open spec fn view(&self) -> RecordView {
        RecordView {
            name: self.name@,
            family: self.ip.family,
            ip: self.ip.text@,
            date: self.date,
            uri: self.uri@,
            user_agent: self.user_agent@,
            trigger: self.triggered_on,
        }
    }
}

impl View for LineOutcome {
    type V = LineView;

    open spec fn view(&self) -> LineView {
        LineView {
            family: self.address.family,
            ip: self.address.text@,
            record: match self.record {
                Some(b) => Some(b@),
                None => None,
            },
        }
    }
}

impl LineError {
    pub open spec fn failure(&self) -> Failure {
        match self {
            LineError::Truncated { .. } => Failure::Truncated,
            LineError::BadDate { text, .. } => Failure::BadDate(text@),
            LineError::BadPattern(e) => Failure::BadPattern(e.pattern@),
        }
    }
}

/// An address with a colon is read as IPv6, any other as IPv4.
pub open spec fn family_of(tok: Seq<char>) -> AddrFamily {
    if tok.contains(':') {
        AddrFamily::V6
    } else {
        AddrFamily::V4
    }
}

/// The date text: the two date tokens joined by one space.
pub open spec fn date_text(t: Seq<Seq<char>>) -> Seq<char> {
    t[DATE_TOKEN as int] + seq![' '] + t[DATE_TOKEN + 1]
}

/// The tokens that make up the User-Agent: all from its position on.
pub open spec fn agent_tokens(t: Seq<Seq<char>>) -> Seq<Seq<char>> {
    if t.len() > AGENT_TOKEN {
        t.subrange(AGENT_TOKEN as int, t.len() as int)
    } else {
        Seq::empty()
    }
}

/// The User-Agent rebuilt from its tokens: joined by single spaces, quotes
/// removed, trimmed.
pub open spec fn user_agent_of(t: Seq<Seq<char>>) -> Seq<char> {
    trimmed(without_quotes(joined(agent_tokens(t))))
}

/// The bot a line is attributed to, from the name its request target matched
/// and the name its User-Agent matched: a User-Agent match takes precedence.
pub open spec fn decision(uri_hit: Option<Seq<char>>, ua_hit: Option<Seq<char>>) -> Option<
    (Trigger, Seq<char>),
> {
    match ua_hit {
        Some(n) => Some((Trigger::UserAgent, n)),
        None => match uri_hit {
            Some(n) => Some((Trigger::UriPath, n)),
            None => None,
        },
    }
}

/// What classifying `line` gives.
pub open spec fn classified(line: Seq<char>, uri_sigs: Seq<Signature>, ua_sigs: Seq<Signature>) -> Result<
    LineView,
    Failure,
> {
    let t = tokens_of(line);
    if t.len() <= URI_TOKEN {
        Err(Failure::Truncated)
    } else {
        match log_time_of(date_text(t)) {
            None => Err(Failure::BadDate(date_text(t))),
            Some(time) => match first_match(uri_sigs, t[URI_TOKEN as int]) {
                Err(p) => Err(Failure::BadPattern(p)),
                Ok(uri_hit) => match first_match(ua_sigs, user_agent_of(t)) {
                    Err(p) => Err(Failure::BadPattern(p)),
                    Ok(ua_hit) => Ok(
                        LineView {
                            family: family_of(t[ADDRESS_TOKEN as int]),
                            ip: t[ADDRESS_TOKEN as int],
                            record: match decision(uri_hit, ua_hit) {
                                None => None,
                                Some((trigger, name)) => Some(
                                    RecordView {
                                        name,
                                        family: family_of(t[ADDRESS_TOKEN as int]),
                                        ip: t[ADDRESS_TOKEN as int],
                                        date: time_from(time),
                                        uri: t[URI_TOKEN as int],
                                        user_agent: user_agent_of(t),
                                        trigger,
                                    },
                                ),
                            },
                        },
                    ),
                },
            },
        }
    }
}

/// A classification result as plain values.
pub open spec fn outcome_view(r: Result<LineOutcome, LineError>) -> Result<LineView, Failure> {
    match r {
        Ok(o) => Ok(o@),
        Err(e) => Err(e.failure()),
    }
}

/// Whether `s` holds a colon.
pub fn has_colon(s: &str) -> (r: bool)
    ensures
        r == s@.contains(':'),
{
    let n = s.unicode_len();
    let mut i: usize = 0;
    while i < n
        invariant
            n == s@.len(),
            i <= n,
            forall|k: int| 0 <= k < i ==> s@[k] != ':',
        decreases n - i,
    {
        if s.get_char(i) == ':' {
            return true;
        }
        i = i + 1;
    }
    false
}

/// The family that the address token `s` is read as.
pub fn address_family(s: &str) -> (r: AddrFamily)
    ensures
        r == family_of(s@),
{
    if has_colon(s) {
        AddrFamily::V6
    } else {
        AddrFamily::V4
    }
}

/// Rebuilds the User-Agent from the tokens of a line.
pub fn rebuild_user_agent(tokens: &Vec<String>) -> (r: String)
    ensures
        r@ == user_agent_of(views(tokens@)),
{
    let from: usize = if tokens.len() > AGENT_TOKEN {
        AGENT_TOKEN
    } else {
        tokens.len()
    };
    let all = join_from(tokens, from);
    let ghost t = views(tokens@);
    assert(t.subrange(from as int, t.len() as int) =~= agent_tokens(t));
    let bare = strip_quotes(all.as_str());
    trim(bare.as_str())
}

/// Attributes a line to a bot from the names its request target and its
/// User-Agent matched; a User-Agent match wins.
pub fn decide(uri_hit: Option<String>, ua_hit: Option<String>) -> (r: Option<(Trigger, String)>)
    ensures
        match decision(
            match uri_hit {
                Some(n) => Some(n@),
                None => None,
            },
            match ua_hit {
                Some(n) => Some(n@),
                None => None,
            },
        ) {
            Some((tr, n)) => r matches Some(p) && p.0 == tr && p.1@ == n,
            None => r is None,
        },
{
    match ua_hit {
        Some(n) => Some((Trigger::UserAgent, n)),
        None => match uri_hit {
            Some(n) => Some((Trigger::UriPath, n)),
            None => None,
        },
    }
}

/// Classifies one log line against the request-target signatures `uri_sigs`
/// and the User-Agent signatures `ua_sigs`.
pub fn classify_line(line: &str, uri_sigs: &Vec<Signature>, ua_sigs: &Vec<Signature>) -> (r: Result<
    LineOutcome,
    LineError,
>)
    ensures
        outcome_view(r) == classified(line@, uri_sigs@, ua_sigs@),
{
    let tokens = split_tokens(line);
    let ghost t = views(tokens@);
    if tokens.len() <= URI_TOKEN {
        return Err(LineError::Truncated { tokens: tokens.len() });
    }
    let mut date = tokens[DATE_TOKEN].clone();
    date.append(" ");
    date.append(tokens[DATE_TOKEN + 1].as_str());
    proof {
        reveal_strlit(" ");
    }
    assert(date@ =~= date_text(t));
    let time = match parse_log_time(date.as_str()) {
        Ok(d) => d,
        Err(e) => {
            return Err(LineError::BadDate { text: date, cause: e });
        },
    };
    let uri = tokens[URI_TOKEN].clone();
    let uri_hit = match find_signature(uri_sigs, uri.as_str()) {
        Ok(h) => h,
        Err(e) => {
            return Err(LineError::BadPattern(e));
        },
    };
    let user_agent = rebuild_user_agent(&tokens);
    let ua_hit = match find_signature(ua_sigs, user_agent.as_str()) {
        Ok(h) => h,
        Err(e) => {
            return Err(LineError::BadPattern(e));
        },
    };
    let family = address_family(tokens[ADDRESS_TOKEN].as_str());
    let record = match decide(uri_hit, ua_hit) {
        Some((trigger, name)) => Some(
            BotData {
                name,
                ip: Address { family, text: tokens[ADDRESS_TOKEN].clone() },
                date: time,
                uri,
                user_agent,
                triggered_on: trigger,
            },
        ),
        None => None,
    };
    Ok(LineOutcome { address: Address { family, text: tokens[ADDRESS_TOKEN].clone() }, record })
}

/// The records of a sequence of records.
pub open spec fn record_views(v: Seq<BotData>) -> Seq<RecordView> {
    v.map_values(|b: BotData| b@)
}

/// What classifying `lines` in order gives: the records of the lines that are
/// bot traffic, in line order, or the failure of the first line that fails.
pub open spec fn parsed(lines: Seq<Seq<char>>, uri_sigs: Seq<Signature>, ua_sigs: Seq<Signature>) -> Result<
    Seq<RecordView>,
    Failure,
>
    decreases lines.len(),
{
    if lines.len() == 0 {
        Ok(Seq::empty())
    } else {
        match parsed(lines.drop_last(), uri_sigs, ua_sigs) {
            Err(f) => Err(f),
            Ok(rs) => match classified(lines.last(), uri_sigs, ua_sigs) {
                Err(f) => Err(f),
                Ok(v) => Ok(
                    match v.record {
                        Some(x) => rs.push(x),
                        None => rs,
                    },
                ),
            },
        }
    }
}

/// Classifies the log lines `lines` in order and returns the records of those
/// that are bot traffic, in line order. The first line that cannot be
/// classified ends the run with its error.
pub fn parse(lines: &Vec<String>, uri_sigs: &Vec<Signature>, ua_sigs: &Vec<Signature>) -> (r: Result<
    Vec<BotData>,
    LineError,
>)
    ensures
        match r {
            Ok(v) => parsed(views(lines@), uri_sigs@, ua_sigs@) == Ok::<
                Seq<RecordView>,
                Failure,
            >(record_views(v@)),
            Err(e) => parsed(views(lines@), uri_sigs@, ua_sigs@) == Err::<
                Seq<RecordView>,
                Failure,
            >(e.failure()),
        },
{
    let ghost all = views(lines@);
    let mut founds: Vec<BotData> = Vec::new();
    let mut i: usize = 0;
    assert(all.take(0) =~= Seq::<Seq<char>>::empty());
    assert(record_views(founds@) =~= Seq::<RecordView>::empty());
    while i < lines.len()
        invariant
            all == views(lines@),
            i <= lines@.len(),
            parsed(all.take(i as int), uri_sigs@, ua_sigs@) == Ok::<Seq<RecordView>, Failure>(
                record_views(founds@),
            ),
        decreases lines@.len() - i,
    {
        assert(all.take(i + 1).drop_last() =~= all.take(i as int));
        assert(all.take(i + 1).last() == lines@[i as int]@);
        match classify_line(lines[i].as_str(), uri_sigs, ua_sigs) {
            Ok(o) => {
                match o.record {
                    Some(b) => {
                        let ghost before = founds@;
                        founds.push(b);
                        assert(record_views(founds@) =~= record_views(before).push(b@));
                    },
                    None => {},
                }
            },
            Err(e) => {
                proof {
                    lemma_failure_stays(all, uri_sigs@, ua_sigs@, i as int + 1);
                }
                return Err(e);
            },
        }
        i = i + 1;
    }
    assert(all.take(i as int) =~= all);
    Ok(founds)
}

/// Once a prefix of the lines fails, the whole sequence fails the same way.
proof fn lemma_failure_stays(lines: Seq<Seq<char>>, uri_sigs: Seq<Signature>, ua_sigs: Seq<Signature>, k: int)
    requires
        0 <= k <= lines.len(),
        parsed(lines.take(k), uri_sigs, ua_sigs) is Err,
    ensures
        parsed(lines, uri_sigs, ua_sigs) == parsed(lines.take(k), uri_sigs, ua_sigs),
    decreases lines.len() - k,
{
    if k < lines.len() {
        assert(lines.take(k + 1).drop_last() =~= lines.take(k));
        lemma_failure_stays(lines, uri_sigs, ua_sigs, k + 1);
    } else {
        assert(lines.take(k) =~= lines);
    }
}

/// A line that classifies yields a record exactly when its request target
/// matches a request-target signature or its User-Agent matches a User-Agent
/// signature.
pub proof fn lemma_record_iff_match(line: Seq<char>, uri_sigs: Seq<Signature>, ua_sigs: Seq<Signature>)
    requires
        classified(line, uri_sigs, ua_sigs) is Ok,
    ensures
        ({
            let t = tokens_of(line);
            classified(line, uri_sigs, ua_sigs) matches Ok(v) && (v.record is Some <==> (
            first_match(uri_sigs, t[URI_TOKEN as int]) matches Ok(Some(_)) || first_match(
                ua_sigs,
                user_agent_of(t),
            ) matches Ok(Some(_))))
        }),
{
}

/// Where both the request target and the User-Agent of a line match, the
/// record is attributed to the User-Agent signature, under its name.
pub proof fn lemma_user_agent_precedence(
    line: Seq<char>,
    uri_sigs: Seq<Signature>,
    ua_sigs: Seq<Signature>,
    uri_name: Seq<char>,
    ua_name: Seq<char>,
)
    requires
        classified(line, uri_sigs, ua_sigs) is Ok,
        first_match(uri_sigs, tokens_of(line)[URI_TOKEN as int]) == Ok::<
            Option<Seq<char>>,
            Seq<char>,
        >(Some(uri_name)),
        first_match(ua_sigs, user_agent_of(tokens_of(line))) == Ok::<
            Option<Seq<char>>,
            Seq<char>,
        >(Some(ua_name)),
    ensures
        classified(line, uri_sigs, ua_sigs) matches Ok(v) && v.record matches Some(rec)
            && rec.trigger == Trigger::UserAgent && rec.name == ua_name,
{
}

/// A record holds the request-target token unchanged, and the User-Agent
/// tokens joined by single spaces, with quotes removed and trimmed.
pub proof fn lemma_record_fields(line: Seq<char>, uri_sigs: Seq<Signature>, ua_sigs: Seq<Signature>)
    requires
        classified(line, uri_sigs, ua_sigs) matches Ok(v) && v.record is Some,
    ensures
        ({
            let t = tokens_of(line);
            classified(line, uri_sigs, ua_sigs) matches Ok(v) && v.record matches Some(rec)
                && rec.uri == t[URI_TOKEN as int] && rec.user_agent == trimmed(
                without_quotes(joined(agent_tokens(t))),
            ) && rec.ip == t[ADDRESS_TOKEN as int]
        }),
{
}

/// The address token of a classified line is read as IPv6 when it holds a
/// colon, as IPv4 otherwise.
pub proof fn lemma_address_family(line: Seq<char>, uri_sigs: Seq<Signature>, ua_sigs: Seq<Signature>)
    requires
        classified(line, uri_sigs, ua_sigs) is Ok,
    ensures
        ({
            let a = tokens_of(line)[ADDRESS_TOKEN as int];
            classified(line, uri_sigs, ua_sigs) matches Ok(v) && v.ip == a && (a.contains(':')
                ==> v.family == AddrFamily::V6) && (!a.contains(':') ==> v.family
                == AddrFamily::V4)
        }),
{
}

/// Classifying two runs of lines one after the other gives the records of
/// the first run followed by those of the second, in line order; a failure
/// in the first run comes before any of the second.
pub proof fn lemma_parsed_concat(
    a: Seq<Seq<char>>,
    b: Seq<Seq<char>>,
    uri_sigs: Seq<Signature>,
    ua_sigs: Seq<Signature>,
)
    ensures
        parsed(a + b, uri_sigs, ua_sigs) == match parsed(a, uri_sigs, ua_sigs) {
            Err(f) => Err(f),
            Ok(ra) => match parsed(b, uri_sigs, ua_sigs) {
                Err(f) => Err(f),
                Ok(rb) => Ok(ra + rb),
            },
        },
    decreases b.len(),
{
    if b.len() == 0 {
        assert(a + b =~= a);
        if let Ok(ra) = parsed(a, uri_sigs, ua_sigs) {
            assert(ra + Seq::<RecordView>::empty() =~= ra);
        }
    } else {
        assert((a + b).drop_last() =~= a + b.drop_last());
        assert((a + b).last() == b.last());
        lemma_parsed_concat(a, b.drop_last(), uri_sigs, ua_sigs);
        if let Ok(ra) = parsed(a, uri_sigs, ua_sigs) {
            if let Ok(rb) = parsed(b.drop_last(), uri_sigs, ua_sigs) {
                if let Ok(v) = classified(b.last(), uri_sigs, ua_sigs) {
                    if let Some(x) = v.record {
                        assert((ra + rb).push(x) =~= ra + rb.push(x));
                    }
                }
            }
        }
    }
}

} // verus!
