//! What a service gets from the service manager, and what it tells it.
use vstd::prelude::*;
use vstd::string::StringExecFns;
use crate::text::{terminated, to_decimal, NulError};

verus! {

/// The first file descriptor that the service manager passes on.
pub const SD_LISTEN_FDS_START: i32 = 3;

/// A socket that the service manager passes on.
#[derive(Clone, Copy, Debug, PartialEq, Eq, Structural)]
pub enum ListenObject {
    UdpSocket(i32),
    TcpListener(i32),
}

impl ListenObject {
    /// The file descriptor of the socket.
    pub open spec fn fd(self) -> i32 {
        match self {
            ListenObject::UdpSocket(fd) => fd,
            ListenObject::TcpListener(fd) => fd,
        }
    }

    pub fn as_raw_fd(&self) -> (r: i32)
        ensures
            r == self.fd(),
    {
        match self {
            ListenObject::UdpSocket(fd) => *fd,
            ListenObject::TcpListener(fd) => *fd,
        }
    }
}

/// Whether the service manager is to take the variables out of the environment.
pub fn unset_flag(unset_environment: bool) -> (r: i32)
    ensures
        r == if unset_environment { 1i32 } else { 0i32 },
{
    if unset_environment {
        1
    } else {
        0
    }
}

/// The type of socket that a file descriptor is tested for.
#[derive(Clone, Copy, Debug, PartialEq, Eq, Structural)]
pub enum SocketType {
    Datagram,
    Stream,
}

/// Why the sockets could not be told apart.
#[derive(Clone, Copy, Debug, PartialEq, Eq, Structural)]
pub enum ListenError {
    /// The type of a file descriptor cannot be found out.
    UnknownType,
    /// A file descriptor is neither a datagram nor a stream socket.
    NotRecognized,
}

impl ListenError {
    pub open spec fn text(self) -> Seq<char> {
        match self {
            ListenError::UnknownType => "Failed to determine socket type."@,
            ListenError::NotRecognized => "file descriptor not recognized"@,
        }
    }

    pub fn message(self) -> (r: &'static str)
        ensures
            r@ == self.text(),
    {
        match self {
            ListenError::UnknownType => "Failed to determine socket type.",
            ListenError::NotRecognized => "file descriptor not recognized",
        }
    }
}

/// What a file descriptor is, given the answers to whether it is a datagram socket and whether it
/// is a stream socket: negative for a failure, zero for no, positive for yes.
pub open spec fn classify(fd: i32, datagram: i32, stream: i32) -> Result<ListenObject, ListenError> {
    if datagram < 0 {
        Err(ListenError::UnknownType)
    } else if datagram > 0 {
        Ok(ListenObject::UdpSocket(fd))
    } else if stream < 0 {
        Err(ListenError::UnknownType)
    } else if stream > 0 {
        Ok(ListenObject::TcpListener(fd))
    } else {
        Err(ListenError::NotRecognized)
    }
}

/// Goes through the file descriptors that were passed on, asking of each what it is.
pub struct ListenScan {
    /// The file descriptor that is asked about.
    pub fd: i32,
    /// The end of the file descriptors.
    pub end: i32,
    /// What is asked.
    pub asked: SocketType,
    /// The sockets below `fd`.
    pub found: Vec<ListenObject>,
}

/// A [`ListenScan`] as plain values.
pub struct ScanView {
    pub fd: int,
    pub end: int,
    pub asked: SocketType,
    pub found: Seq<ListenObject>,
}

impl View for ListenScan {
    type V = ScanView;

    open spec fn view(&self) -> ScanView {
        ScanView {
            fd: self.fd as int,
            end: self.end as int,
            asked: self.asked,
            found: self.found@,
        }
    }
}

impl ScanView {
    /// A scan of `count` file descriptors before the first question.
    pub open spec fn start(count: int) -> ScanView {
        ScanView {
            fd: SD_LISTEN_FDS_START as int,
            end: SD_LISTEN_FDS_START + count,
            asked: SocketType::Datagram,
            found: Seq::empty(),
        }
    }

    /// The scan after the answer `res`.
    pub open spec fn answered(self, res: i32) -> Result<ScanView, ListenError> {
        if res < 0 {
            Err(ListenError::UnknownType)
        } else {
            match self.asked {
                SocketType::Datagram => if res == 0 {
                    Ok(ScanView { asked: SocketType::Stream, ..self })
                } else {
                    Ok(self.with(ListenObject::UdpSocket(self.fd as i32)))
                },
                SocketType::Stream => if res == 0 {
                    Err(ListenError::NotRecognized)
                } else {
                    Ok(self.with(ListenObject::TcpListener(self.fd as i32)))
                },
            }
        }
    }

    /// The scan at the next file descriptor, with one more socket found.
    pub open spec fn with(self, object: ListenObject) -> ScanView {
        ScanView {
            fd: self.fd + 1,
            end: self.end,
            asked: SocketType::Datagram,
            found: self.found.push(object),
        }
    }

    /// What a scan comes to when it is answered until it asks no more: `datagram` and `stream`
    /// give the answers for each file descriptor.
    pub open spec fn outcome(
        self,
        datagram: spec_fn(int) -> i32,
        stream: spec_fn(int) -> i32,
    ) -> Result<Seq<ListenObject>, ListenError>
        decreases self.end - self.fd, (if self.asked == SocketType::Datagram { 1int } else { 0 }),
    {
        if self.fd >= self.end {
            Ok(self.found)
        } else {
            let res = match self.asked {
                SocketType::Datagram => datagram(self.fd),
                SocketType::Stream => stream(self.fd),
            };
            match self.answered(res) {
                Ok(next) => next.outcome(datagram, stream),
                Err(e) => Err(e),
            }
        }
    }
}

/// What the file descriptors from `fd` up to `end` are, or the error of the first that is neither.
pub open spec fn listing(
    fd: int,
    end: int,
    datagram: spec_fn(int) -> i32,
    stream: spec_fn(int) -> i32,
) -> Result<Seq<ListenObject>, ListenError>
    decreases end - fd,
{
    if fd >= end {
        Ok(Seq::empty())
    } else {
        match classify(fd as i32, datagram(fd), stream(fd)) {
            Err(e) => Err(e),
            Ok(object) => match listing(fd + 1, end, datagram, stream) {
                Err(e) => Err(e),
                Ok(rest) => Ok(seq![object] + rest),
            },
        }
    }
}

/// A scan classifies every file descriptor that was passed on, in order, or fails as the first
/// does that is neither a datagram nor a stream socket.
pub proof fn law_scan_classifies(
    count: int,
    datagram: spec_fn(int) -> i32,
    stream: spec_fn(int) -> i32,
)
    ensures
        ScanView::start(count).outcome(datagram, stream) == listing(
            SD_LISTEN_FDS_START as int,
            SD_LISTEN_FDS_START + count,
            datagram,
            stream,
        ),
{
    lemma_scan(ScanView::start(count), datagram, stream);
    let whole = listing(
        SD_LISTEN_FDS_START as int,
        SD_LISTEN_FDS_START + count,
        datagram,
        stream,
    );
    if let Ok(rest) = whole {
        assert(Seq::<ListenObject>::empty() + rest =~= rest);
    }
}

proof fn lemma_scan(scan: ScanView, datagram: spec_fn(int) -> i32, stream: spec_fn(int) -> i32)
    requires
        scan.asked == SocketType::Datagram,
    ensures
        scan.outcome(datagram, stream) == (match listing(scan.fd, scan.end, datagram, stream) {
            Ok(rest) => Ok(scan.found + rest),
            Err(e) => Err::<Seq<ListenObject>, ListenError>(e),
        }),
    decreases scan.end - scan.fd,
{
    reveal_with_fuel(ScanView::outcome, 3);
    if scan.fd >= scan.end {
        assert(scan.found + Seq::empty() =~= scan.found);
    } else {
        let kind = classify(scan.fd as i32, datagram(scan.fd), stream(scan.fd));
        if let Ok(object) = kind {
            lemma_scan(scan.with(object), datagram, stream);
            if let Ok(rest) = listing(scan.fd + 1, scan.end, datagram, stream) {
                assert(scan.found.push(object) + rest =~= scan.found + (seq![object] + rest));
            }
        }
    }
}

/// Starts on the `count` file descriptors that were passed on. A negative count is a failure to
/// find out, and stands for none.
pub fn listen_fds(count: i32) -> (r: ListenScan)
    requires
        SD_LISTEN_FDS_START + count <= i32::MAX,
    ensures
        r@ == ScanView::start(count as int),
{
    ListenScan {
        fd: SD_LISTEN_FDS_START,
        end: SD_LISTEN_FDS_START + count,
        asked: SocketType::Datagram,
        found: Vec::new(),
    }
}

impl ListenScan {
    /// The next question, if there is one: whether a file descriptor is a socket of a type.
    pub fn query(&self) -> (r: Option<(i32, SocketType)>)
        ensures
            r == if self.fd < self.end {
                Some((self.fd, self.asked))
            } else {
                None
            },
    {
        if self.fd < self.end {
            Some((self.fd, self.asked))
        } else {
            None
        }
    }

    /// Takes the answer to the question.
    pub fn answer(&mut self, res: i32) -> (r: Result<(), ListenError>)
        requires
            old(self).fd < old(self).end,
        ensures
            match old(self)@.answered(res) {
                Ok(next) => r is Ok && final(self)@ == next,
                Err(e) => r == Err::<(), ListenError>(e) && final(self)@ == old(self)@,
            },
    {
        if res < 0 {
            return Err(ListenError::UnknownType);
        }
        match self.asked {
            SocketType::Datagram => {
                if res == 0 {
                    self.asked = SocketType::Stream;
                } else {
                    self.found.push(ListenObject::UdpSocket(self.fd));
                    self.fd = self.fd + 1;
                }
            },
            SocketType::Stream => {
                if res == 0 {
                    return Err(ListenError::NotRecognized);
                }
                self.found.push(ListenObject::TcpListener(self.fd));
                self.asked = SocketType::Datagram;
                self.fd = self.fd + 1;
            },
        }
        Ok(())
    }
}

/// A message to the service manager.
pub struct Notification {
    /// Whether the environment is to be changed: 1 for yes, 0 for no.
    pub unset_environment: i32,
    /// The text, ended by a NUL.
    pub state: Vec<u8>,
}

impl Notification {
    /// Whether the message is `text`, with the environment left alone.
    pub open spec fn says(&self, text: Seq<char>) -> bool {
        &&& self.unset_environment == 0
        &&& self.state@ == vstd::utf8::encode_utf8(text).push(0u8)
    }

    /// The complaint to be made when sending the message came back with `res`, if any.
    pub fn failure(&self, res: i32) -> (r: Option<&'static str>)
        ensures
            r is Some <==> res < 0,
            r matches Some(message) ==> message@ == "failed to notify"@,
    {
        if res >= 0 {
            None
        } else {
            Some("failed to notify")
        }
    }
}

/// The message that tells the service manager `state`. A text that holds a NUL cannot be sent.
pub fn notify(unset_environment: bool, state: &str) -> (r: Result<Notification, NulError>)
    ensures
        match r {
            Ok(message) => {
                &&& !state@.contains('\0')
                &&& message.unset_environment == if unset_environment { 1i32 } else { 0i32 }
                &&& message.state@ == vstd::utf8::encode_utf8(state@).push(0u8)
            },
            Err(e) => {
                &&& state@.contains('\0')
                &&& e.bytes@ == vstd::utf8::encode_utf8(state@)
                &&& crate::search::is_first_where(e.bytes@, |b: u8| b == 0, e.position as int)
            },
        },
{
    match terminated(state) {
        Ok(bytes) => Ok(
            Notification { unset_environment: unset_flag(unset_environment), state: bytes },
        ),
        Err(e) => Err(e),
    }
}

/// The message with the given text; nothing where the text holds a NUL.
fn notify_text(state: &str) -> (r: Option<Notification>)
    ensures
        r is None <==> state@.contains('\0'),
        r matches Some(message) ==> message.says(state@),
{
    match notify(false, state) {
        Ok(message) => Some(message),
        Err(_) => None,
    }
}

/// The service is ready.
pub fn notify_ready() -> (r: Option<Notification>)
    ensures
        r matches Some(message) && message.says("READY=1"@),
{
    proof {
        reveal_strlit("READY=1");
    }
    notify_text("READY=1")
}

/// The service is reloading.
pub fn notify_reloading() -> (r: Option<Notification>)
    ensures
        r matches Some(message) && message.says("RELOADING=1"@),
{
    proof {
        reveal_strlit("RELOADING=1");
    }
    notify_text("RELOADING=1")
}

/// The service is stopping.
pub fn notify_stopping() -> (r: Option<Notification>)
    ensures
        r matches Some(message) && message.says("STOPPING=1"@),
{
    proof {
        reveal_strlit("STOPPING=1");
    }
    notify_text("STOPPING=1")
}

/// The point in time, on the monotonic clock, of what is being told.
pub fn notify_monotonic_usec(usec: u64) -> (r: Option<Notification>)
    ensures
        r matches Some(message) && message.says(
            "MONOTONIC_USEC="@ + crate::text::decimal(usec as nat),
        ),
{
    let prefix = "MONOTONIC_USEC=".to_owned();
    let text = prefix.concat(to_decimal(usec).as_str());
    proof {
        reveal_strlit("MONOTONIC_USEC=");
        crate::text::lemma_decimal_digits(usec as nat);
        let digits = crate::text::decimal(usec as nat);
        assert(!text@.contains('\0')) by {
            assert forall|i: int| 0 <= i < text@.len() implies text@[i] != '\0' by {
                if i >= prefix@.len() {
                    assert(text@[i] == digits[i - prefix@.len()]);
                }
            }
        }
    }
    notify_text(text.as_str())
}

/// The service describes its status. Nothing is told where the description holds a NUL.
pub fn notify_status(status: &str) -> (r: Option<Notification>)
    ensures
        r is None <==> status@.contains('\0'),
        r matches Some(message) ==> message.says("STATUS="@ + status@),
{
    let prefix = "STATUS=".to_owned();
    let text = prefix.concat(status);
    proof {
        reveal_strlit("STATUS=");
        let whole = text@;
        if whole.contains('\0') {
            let i = choose|i: int| 0 <= i < whole.len() && whole[i] == '\0';
            assert(status@[i - prefix@.len()] == '\0');
        }
        if status@.contains('\0') {
            let i = choose|i: int| 0 <= i < status@.len() && status@[i] == '\0';
            assert(whole[i + prefix@.len()] == '\0');
        }
    }
    notify_text(text.as_str())
}

/// The sockets that a scan finds are those that were passed on, each once and in order: a datagram
/// socket where the first answer says so, a stream socket where the first says no and the second
/// says so. A scan finds them exactly when every file descriptor is one or the other.
pub proof fn law_scan_finds_every_socket(
    count: int,
    datagram: spec_fn(int) -> i32,
    stream: spec_fn(int) -> i32,
)
    requires
        count <= i32::MAX - 3,
    ensures
        match ScanView::start(count).outcome(datagram, stream) {
            Ok(found) => {
                &&& found.len() == if count < 0 { 0 } else { count }
                &&& forall|k: int|
                    0 <= k < count ==> match #[trigger] found[k] {
                        ListenObject::UdpSocket(fd) => fd == 3 + k && datagram(3 + k) > 0,
                        ListenObject::TcpListener(fd) => {
                            &&& fd == 3 + k
                            &&& datagram(3 + k) == 0
                            &&& stream(3 + k) > 0
                        },
                    }
            },
            Err(e) => exists|fd: int|
                3 <= fd < 3 + count && #[trigger] fails_first(3, fd, datagram, stream, e),
        },
{
    law_scan_classifies(count, datagram, stream);
    if count >= 0 {
        lemma_listing(3, 3 + count, datagram, stream);
    }
}

/// Whether `fd` is the first file descriptor from `from` on that is neither a datagram nor a stream
/// socket, with the error that tells why.
pub open spec fn fails_first(
    from: int,
    fd: int,
    datagram: spec_fn(int) -> i32,
    stream: spec_fn(int) -> i32,
    e: ListenError,
) -> bool {
    &&& forall|k: int|
        from <= k < fd ==> (#[trigger] datagram(k)) > 0 || datagram(k) == 0 && stream(k) > 0
    &&& match e {
        ListenError::UnknownType => datagram(fd) < 0 || datagram(fd) == 0 && stream(fd) < 0,
        ListenError::NotRecognized => datagram(fd) == 0 && stream(fd) == 0,
    }
}

proof fn lemma_listing(
    from: int,
    end: int,
    datagram: spec_fn(int) -> i32,
    stream: spec_fn(int) -> i32,
)
    requires
        0 <= from <= end <= i32::MAX,
    ensures
        match listing(from, end, datagram, stream) {
            Ok(found) => {
                &&& found.len() == end - from
                &&& forall|k: int|
                    0 <= k < found.len() ==> match #[trigger] found[k] {
                        ListenObject::UdpSocket(fd) => fd == from + k && datagram(from + k) > 0,
                        ListenObject::TcpListener(fd) => {
                            &&& fd == from + k
                            &&& datagram(from + k) == 0
                            &&& stream(from + k) > 0
                        },
                    }
            },
            Err(e) => exists|fd: int|
                from <= fd < end && #[trigger] fails_first(from, fd, datagram, stream, e),
        },
    decreases end - from,
{
    if from < end {
        lemma_listing(from + 1, end, datagram, stream);
        match classify(from as i32, datagram(from), stream(from)) {
            Err(e) => {
                assert(fails_first(from, from, datagram, stream, e));
            },
            Ok(object) => match listing(from + 1, end, datagram, stream) {
                Err(e) => {
                    let fd = choose|fd: int|
                        from + 1 <= fd < end && #[trigger] fails_first(
                            from + 1,
                            fd,
                            datagram,
                            stream,
                            e,
                        );
                    assert(fails_first(from, fd, datagram, stream, e));
                },
                Ok(rest) => {
                    let found = seq![object] + rest;
                    assert forall|k: int| 0 <= k < found.len() implies match #[trigger] found[k] {
                        ListenObject::UdpSocket(fd) => fd == from + k && datagram(from + k) > 0,
                        ListenObject::TcpListener(fd) => {
                            &&& fd == from + k
                            &&& datagram(from + k) == 0
                            &&& stream(from + k) > 0
                        },
                    } by {
                        if k > 0 {
                            assert(found[k] == rest[k - 1]);
                        }
                    }
                },
            },
        }
    }
}

/// A socket that was found is known by the file descriptor that it was found under.
pub proof fn law_sockets_keep_their_descriptor(fd: i32)
    ensures
        ListenObject::UdpSocket(fd).fd() == fd,
        ListenObject::TcpListener(fd).fd() == fd,
{
}

/// What is said of a scan as plain values is what the scan holds.
pub proof fn law_nothing_of_a_scan_is_hidden(scan: ListenScan)
    ensures
        scan@.fd == scan.fd,
        scan@.end == scan.end,
        scan@.asked == scan.asked,
        scan@.found == scan.found@,
{
}

/// A scan asks of each file descriptor first whether it is a datagram socket, and only where it is not
/// whether it is a stream socket; then it goes on to the next one, with all that it found before.
pub proof fn law_scan_goes_on(scan: ScanView, res: i32)
    requires
        0 <= scan.fd < i32::MAX,
    ensures
        scan.answered(res) is Err <==> res < 0 || res == 0 && scan.asked == SocketType::Stream,
        scan.answered(res) matches Err(e) ==> (e == ListenError::UnknownType <==> res < 0),
        scan.answered(res) matches Ok(next) ==> {
            &&& next.end == scan.end
            &&& if res > 0 {
                &&& next.fd == scan.fd + 1
                &&& next.asked == SocketType::Datagram
                &&& next.found.len() == scan.found.len() + 1
                &&& next.found.drop_last() == scan.found
                &&& match next.found.last() {
                    ListenObject::UdpSocket(fd) => fd == scan.fd && scan.asked
                        == SocketType::Datagram,
                    ListenObject::TcpListener(fd) => fd == scan.fd && scan.asked
                        == SocketType::Stream,
                }
            } else {
                &&& next.fd == scan.fd
                &&& next.asked == SocketType::Stream
                &&& next.found == scan.found
            }
        },
{
    if let Ok(next) = scan.answered(res) {
        if res > 0 {
            assert(next.found.drop_last() =~= scan.found);
        }
    }
}

/// A message says a text exactly when it is the bytes of the text with one NUL behind them, and leaves
/// the environment alone.
pub proof fn law_messages_say_their_text(message: Notification, text: Seq<char>)
    ensures
        message.says(text) <==> {
            let bytes = vstd::utf8::encode_utf8(text);
            &&& message.unset_environment == 0
            &&& message.state@.len() == bytes.len() + 1
            &&& message.state@.drop_last() == bytes
            &&& message.state@.last() == 0
        },
{
    let bytes = vstd::utf8::encode_utf8(text);
    assert(bytes.push(0u8).drop_last() =~= bytes);
    if message.state@.len() == bytes.len() + 1 && message.state@.drop_last() == bytes
        && message.state@.last() == 0 {
        assert(message.state@ =~= bytes.push(0u8));
    }
}

/// Every call of [`ListenScan::query`] asks about the file descriptor that the scan has come to, and every
/// call of [`ListenScan::answer`] finds a socket where the answer is yes.
pub proof fn law_query_and_answer()
    ensures
        forall|count: i32, r: ListenScan| #[trigger]
            call_ensures(listen_fds, (count,), r) && 3 + count <= i32::MAX ==> {
                &&& r.fd == 3
                &&& r.end == 3 + count
                &&& r.asked == SocketType::Datagram
                &&& r.found@.len() == 0
            },
        forall|scan: &ListenScan, r: Option<(i32, SocketType)>| #[trigger]
            call_ensures(ListenScan::query, (scan,), r) ==> match r {
                Some((fd, asked)) => fd < scan.end && fd == scan.fd && asked == scan.asked,
                None => scan.fd >= scan.end,
            },
        forall|s: &mut ListenScan, res: i32, r: Result<(), ListenError>| #[trigger]
            call_ensures(ListenScan::answer, (s, res), r) && 0 <= (*s).fd < (*s).end ==> {
                let (before, after) = (*s, *final(s));
                &&& after.end == before.end
                &&& r is Err <==> res < 0 || res == 0 && before.asked == SocketType::Stream
                &&& r matches Err(e) ==> (e == ListenError::UnknownType <==> res < 0)
                &&& if r is Ok && res > 0 {
                    &&& after.fd == before.fd + 1
                    &&& after.asked == SocketType::Datagram
                    &&& after.found@ == before.found@.push(
                        match before.asked {
                            SocketType::Datagram => ListenObject::UdpSocket(before.fd),
                            SocketType::Stream => ListenObject::TcpListener(before.fd),
                        },
                    )
                } else {
                    &&& after.fd == before.fd
                    &&& after.found@ == before.found@
                    &&& after.asked == if r is Ok { SocketType::Stream } else { before.asked }
                }
            },
{
    assert forall|s: &mut ListenScan, res: i32, r: Result<(), ListenError>| #[trigger]
        call_ensures(ListenScan::answer, (s, res), r) && 0 <= (*s).fd < (*s).end implies {
        let (before, after) = (*s, *final(s));
        &&& after.end == before.end
        &&& r is Err <==> res < 0 || res == 0 && before.asked == SocketType::Stream
        &&& r matches Err(e) ==> (e == ListenError::UnknownType <==> res < 0)
        &&& if r is Ok && res > 0 {
            &&& after.fd == before.fd + 1
            &&& after.asked == SocketType::Datagram
            &&& after.found@ == before.found@.push(
                match before.asked {
                    SocketType::Datagram => ListenObject::UdpSocket(before.fd),
                    SocketType::Stream => ListenObject::TcpListener(before.fd),
                },
            )
        } else {
            &&& after.fd == before.fd
            &&& after.found@ == before.found@
            &&& after.asked == if r is Ok { SocketType::Stream } else { before.asked }
        }
    } by {
        law_nothing_of_a_scan_is_hidden(*s);
        law_nothing_of_a_scan_is_hidden(*final(s));
        law_scan_goes_on((*s)@, res);
    }
    assert forall|count: i32, r: ListenScan| #[trigger]
        call_ensures(listen_fds, (count,), r) && 3 + count <= i32::MAX implies {
        &&& r.fd == 3
        &&& r.end == 3 + count
        &&& r.asked == SocketType::Datagram
        &&& r.found@.len() == 0
    } by {
        law_nothing_of_a_scan_is_hidden(r);
    }
}

/// What is told to the service manager is the text that the call is for, with what it was given behind it, and
/// the environment is left alone.
pub proof fn law_notifications()
    ensures
        forall|r: Option<Notification>| #[trigger]
            call_ensures(notify_ready, (), r) ==> tells(r, "READY=1"@),
        forall|r: Option<Notification>| #[trigger]
            call_ensures(notify_reloading, (), r) ==> tells(r, "RELOADING=1"@),
        forall|r: Option<Notification>| #[trigger]
            call_ensures(notify_stopping, (), r) ==> tells(r, "STOPPING=1"@),
        forall|status: &str, r: Option<Notification>| #[trigger]
            call_ensures(notify_status, (status,), r) ==> if status@.contains('\0') {
                r is None
            } else {
                tells(r, "STATUS="@ + status@)
            },
        forall|usec: u64, r: Option<Notification>| #[trigger]
            call_ensures(notify_monotonic_usec, (usec,), r) ==> exists|digits: Seq<char>|
                crate::text::denoted(digits) == usec && #[trigger] tells(
                    r,
                    "MONOTONIC_USEC="@ + digits,
                ),
{
    assert forall|usec: u64, r: Option<Notification>| #[trigger]
        call_ensures(notify_monotonic_usec, (usec,), r) implies exists|digits: Seq<char>|
        crate::text::denoted(digits) == usec && #[trigger] tells(
            r,
            "MONOTONIC_USEC="@ + digits,
        ) by {
        let digits = crate::text::decimal(usec as nat);
        crate::text::law_decimal_denotes_the_number(usec as nat);
        assert(tells(r, "MONOTONIC_USEC="@ + digits));
    }
}

/// Whether there is a message, of the given text.
pub open spec fn tells(r: Option<Notification>, text: Seq<char>) -> bool {
    &&& r matches Some(message)
    &&& message.unset_environment == 0
    &&& message.state@ == vstd::utf8::encode_utf8(text).push(0u8)
}

} // verus!
