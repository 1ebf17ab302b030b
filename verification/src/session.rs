//! The request dispatcher as a state machine.
//!
//! One connection runs one exchange: the first message received decides the
//! sub-protocol (download, upload, list, remove), and the machine then walks
//! that sub-protocol to a terminal state. The machine itself performs no I/O:
//! [`SessionState::step`] consumes one [`Event`] (what the caller observed)
//! and returns the next state together with one [`Action`] (what the caller
//! must do next). The caller owns the stream and the file store, performs
//! each action, and feeds the outcome back in. Every decision the server
//! takes is therefore verified against [`spec_step`].
use crate::dtp::{
    Content, ContentModel, ContentType, Message, MessageModel, SubTitile, Title,
};
use vstd::multiset::Multiset;
use vstd::prelude::*;
use vstd::relations::{sorted_by, total_ordering};

verus! {

/// Why an exchange failed on the server's side.
#[derive(Debug, Clone, PartialEq, Eq)]
pub enum SessionError {
    /// An inbound message carried a title other than the one the step
    /// expected.
    WrongTitle,
    /// An inbound message reported success but carried the wrong content
    /// type for the step.
    WrongContentType,
    /// A content element was not of the variant the step expected, or was
    /// missing altogether.
    WrongContentVariant,
    /// The peer reported failure; the bytes are its error description.
    PeerReported(Vec<u8>),
    /// The peer reported failure without a readable text description.
    PeerReportedUnreadable,
    /// A download was requested for a file that does not exist.
    FileMissing,
    /// The file store rejected a remove; the bytes describe the fault.
    RemoveRejected(Vec<u8>),
    /// The caller handed the machine an event that its state cannot consume.
    UnexpectedEvent,
}

/// Mathematical model of a [`SessionError`].
pub enum SessionErrorModel {
    WrongTitle,
    WrongContentType,
    WrongContentVariant,
    PeerReported(Seq<u8>),
    PeerReportedUnreadable,
    FileMissing,
    RemoveRejected(Seq<u8>),
    UnexpectedEvent,
}

impl View for SessionError {
    type V = SessionErrorModel;

    open spec fn view(&self) -> SessionErrorModel {
        match self {
            SessionError::WrongTitle => SessionErrorModel::WrongTitle,
            SessionError::WrongContentType => SessionErrorModel::WrongContentType,
            SessionError::WrongContentVariant => SessionErrorModel::WrongContentVariant,
            SessionError::PeerReported(t) => SessionErrorModel::PeerReported(t@),
            SessionError::PeerReportedUnreadable => SessionErrorModel::PeerReportedUnreadable,
            SessionError::FileMissing => SessionErrorModel::FileMissing,
            SessionError::RemoveRejected(t) => SessionErrorModel::RemoveRejected(t@),
            SessionError::UnexpectedEvent => SessionErrorModel::UnexpectedEvent,
        }
    }
}

/// The model of a content array: each element replaced by its model.
pub open spec fn contents_model(v: Seq<Content>) -> Seq<ContentModel> {
    v.map_values(|c: Content| c@)
}

/// A bare acknowledgement: success, no content.
pub open spec fn spec_bare_ok(title: Title) -> MessageModel {
    MessageModel {
        title,
        sub_title: SubTitile::Success,
        content_type: ContentType::NoContent,
        content_array: Seq::empty(),
    }
}

/// A failure report carrying an error text.
pub open spec fn spec_error_message(title: Title, text: Seq<u8>) -> MessageModel {
    MessageModel {
        title,
        sub_title: SubTitile::Failure,
        content_type: ContentType::ErrMessage,
        content_array: seq![ContentModel::Text(text)],
    }
}

/// A successful response carrying a file size.
pub open spec fn spec_size_message(title: Title, size: u64) -> MessageModel {
    MessageModel {
        title,
        sub_title: SubTitile::Success,
        content_type: ContentType::FileSize,
        content_array: seq![ContentModel::Number(size)],
    }
}

/// A successful response carrying raw file bytes.
pub open spec fn spec_data_message(title: Title, data: Seq<u8>) -> MessageModel {
    MessageModel {
        title,
        sub_title: SubTitile::Success,
        content_type: ContentType::FileData,
        content_array: seq![ContentModel::Binary(data)],
    }
}

/// Build a bare acknowledgement message.
pub fn bare_ok(title: Title) -> (m: Message)
    ensures
        m@ == spec_bare_ok(title),
{
    let m = Message::new(title, SubTitile::Success, ContentType::NoContent, Vec::new());
    assert(m@.content_array =~= Seq::<ContentModel>::empty());
    m
}

/// Build a failure report carrying an error text.
pub fn error_message(title: Title, text: Vec<u8>) -> (m: Message)
    ensures
        m@ == spec_error_message(title, text@),
{
    let ghost t = text@;
    let m = Message::new(
        title,
        SubTitile::Failure,
        ContentType::ErrMessage,
        vec![Content::Text(text)],
    );
    assert(m@.content_array =~= seq![ContentModel::Text(t)]);
    m
}

/// Build a successful response carrying a file size.
pub fn size_message(title: Title, size: u64) -> (m: Message)
    ensures
        m@ == spec_size_message(title, size),
{
    let m = Message::new(
        title,
        SubTitile::Success,
        ContentType::FileSize,
        vec![Content::Number(size)],
    );
    assert(m@.content_array =~= seq![ContentModel::Number(size)]);
    m
}

/// Build a successful response carrying raw file bytes.
pub fn data_message(title: Title, data: Vec<u8>) -> (m: Message)
    ensures
        m@ == spec_data_message(title, data@),
{
    let ghost d = data@;
    let m = Message::new(
        title,
        SubTitile::Success,
        ContentType::FileData,
        vec![Content::Binary(data)],
    );
    assert(m@.content_array =~= seq![ContentModel::Binary(d)]);
    m
}

/// What checking an inbound message yields: its content array, or the exact
/// fault. A title mismatch is a protocol error; a failure report from the
/// peer short-circuits with its text if one is present; under success the
/// content type must be the expected one.
pub open spec fn spec_unbox(
    m: MessageModel,
    ok_title: Title,
    ok_content_type: ContentType,
) -> Result<Seq<ContentModel>, SessionErrorModel> {
    if m.title != ok_title {
        Err(SessionErrorModel::WrongTitle)
    } else if m.sub_title is Failure {
        if m.content_array.len() >= 1 && m.content_array[0] is Text {
            Err(SessionErrorModel::PeerReported(m.content_array[0]->Text_0))
        } else {
            Err(SessionErrorModel::PeerReportedUnreadable)
        }
    } else if m.content_type != ok_content_type {
        Err(SessionErrorModel::WrongContentType)
    } else {
        Ok(m.content_array)
    }
}

/// Check an inbound message against the title and content type the current
/// step expects, and hand back its content array.
pub fn unbox_message(
    message: Message,
    ok_title: Title,
    ok_content_type: ContentType,
) -> (r: Result<Vec<Content>, SessionError>)
    ensures
        r matches Ok(v) ==> spec_unbox(message@, ok_title, ok_content_type) == Ok::<
            _,
            SessionErrorModel,
        >(contents_model(v@)),
        r matches Err(e) ==> spec_unbox(message@, ok_title, ok_content_type) == Err::<
            Seq<ContentModel>,
            _,
        >(e@),
{
    if message.title != ok_title {
        return Err(SessionError::WrongTitle);
    }
    match message.sub_title {
        SubTitile::Success => {},
        SubTitile::Failure => {
            if message.content_array.len() >= 1 {
                match &message.content_array[0] {
                    Content::Text(t) => {
                        return Err(SessionError::PeerReported(t.clone()));
                    },
                    _ => {
                        return Err(SessionError::PeerReportedUnreadable);
                    },
                }
            }
            return Err(SessionError::PeerReportedUnreadable);
        },
    }
    if message.content_type != ok_content_type {
        return Err(SessionError::WrongContentType);
    }
    Ok(message.content_array)
}

/// Lexicographic order on byte sequences: shorter prefixes come first, and
/// the first differing byte decides.
pub open spec fn lex_leq(a: Seq<u8>, b: Seq<u8>) -> bool
    decreases a.len(),
{
    if a.len() == 0 {
        true
    } else if b.len() == 0 {
        false
    } else if a[0] < b[0] {
        true
    } else if a[0] > b[0] {
        false
    } else {
        lex_leq(a.drop_first(), b.drop_first())
    }
}

/// The lexicographic order as a relation value, for vstd's sorting lemmas.
pub open spec fn lex_fn() -> spec_fn(Seq<u8>, Seq<u8>) -> bool {
    |a: Seq<u8>, b: Seq<u8>| lex_leq(a, b)
}

proof fn lemma_lex_refl(a: Seq<u8>)
    ensures
        lex_leq(a, a),
    decreases a.len(),
{
    if a.len() > 0 {
        lemma_lex_refl(a.drop_first());
    }
}

proof fn lemma_lex_total(a: Seq<u8>, b: Seq<u8>)
    ensures
        lex_leq(a, b) || lex_leq(b, a),
    decreases a.len(),
{
    if a.len() > 0 && b.len() > 0 && a[0] == b[0] {
        lemma_lex_total(a.drop_first(), b.drop_first());
    }
}

proof fn lemma_lex_antisym(a: Seq<u8>, b: Seq<u8>)
    requires
        lex_leq(a, b),
        lex_leq(b, a),
    ensures
        a == b,
    decreases a.len(),
{
    if a.len() == 0 {
        assert(b.len() == 0);
        assert(a =~= b);
    } else {
        assert(b.len() > 0);
        assert(a[0] == b[0]);
        assert(lex_leq(a.drop_first(), b.drop_first()));
        assert(lex_leq(b.drop_first(), a.drop_first()));
        lemma_lex_antisym(a.drop_first(), b.drop_first());
        assert(a.drop_first() =~= b.drop_first());
        assert(a.len() == b.len());
        assert forall|i: int| 0 <= i < a.len() implies a[i] == b[i] by {
            if i > 0 {
                assert(a[i] == a.drop_first()[i - 1]);
                assert(b[i] == b.drop_first()[i - 1]);
            }
        }
        assert(a =~= b);
    }
}

proof fn lemma_lex_trans(a: Seq<u8>, b: Seq<u8>, c: Seq<u8>)
    requires
        lex_leq(a, b),
        lex_leq(b, c),
    ensures
        lex_leq(a, c),
    decreases a.len(),
{
    if a.len() == 0 {
    } else {
        assert(b.len() > 0);
        assert(c.len() > 0);
        if a[0] == b[0] && b[0] == c[0] {
            lemma_lex_trans(a.drop_first(), b.drop_first(), c.drop_first());
        }
    }
}

/// The lexicographic order is a total ordering, so sorting by it has one
/// unique result for each multiset of names.
pub proof fn lemma_lex_total_ordering()
    ensures
        total_ordering(lex_fn()),
{
    let leq = lex_fn();
    assert forall|a: Seq<u8>| #[trigger] leq(a, a) by {
        lemma_lex_refl(a);
    }
    assert forall|a: Seq<u8>, b: Seq<u8>| #[trigger] leq(a, b) && #[trigger] leq(b, a)
        implies a == b by {
        lemma_lex_antisym(a, b);
    }
    assert forall|a: Seq<u8>, b: Seq<u8>, c: Seq<u8>|
        #[trigger] leq(a, b) && #[trigger] leq(b, c) implies leq(a, c) by {
        lemma_lex_trans(a, b, c);
    }
    assert forall|a: Seq<u8>, b: Seq<u8>| #[trigger] leq(a, b) || #[trigger] leq(b, a) by {
        lemma_lex_total(a, b);
    }
}

/// Compare two byte strings in lexicographic order.
pub fn lex_leq_bytes(a: &Vec<u8>, b: &Vec<u8>) -> (r: bool)
    ensures
        r == lex_leq(a@, b@),
{
    let mut i: usize = 0;
    assert(a@.skip(0) =~= a@);
    assert(b@.skip(0) =~= b@);
    while i < a.len() && i < b.len()
        invariant
            i <= a@.len(),
            i <= b@.len(),
            lex_leq(a@, b@) == lex_leq(a@.skip(i as int), b@.skip(i as int)),
            lex_leq(b@, a@) == lex_leq(b@.skip(i as int), a@.skip(i as int)),
        decreases a@.len() - i,
    {
        if a[i] < b[i] {
            return true;
        }
        if a[i] > b[i] {
            return false;
        }
        proof {
            assert(a@.skip(i as int).drop_first() =~= a@.skip(i + 1));
            assert(b@.skip(i as int).drop_first() =~= b@.skip(i + 1));
        }
        i = i + 1;
    }
    i == a.len()
}

/// The model of a list of entry names: each name replaced by its bytes.
pub open spec fn entries_model(v: Seq<Vec<u8>>) -> Seq<Seq<u8>> {
    v.map_values(|e: Vec<u8>| e@)
}

/// Sort entry names into lexicographic order. The result is the unique
/// sorted arrangement of the given names.
pub fn sort_entries(entries: Vec<Vec<u8>>) -> (r: Vec<Vec<u8>>)
    ensures
        sorted_by(entries_model(r@), lex_fn()),
        entries_model(r@).to_multiset() == entries_model(entries@).to_multiset(),
{
    broadcast use vstd::seq_lib::group_to_multiset_ensures;
    broadcast use vstd::multiset::group_multiset_axioms;

    let ghost input = entries_model(entries@);
    let mut rest = entries;
    let mut out: Vec<Vec<u8>> = Vec::new();
    while rest.len() > 0
        invariant
            entries_model(out@).to_multiset().add(entries_model(rest@).to_multiset())
                =~= input.to_multiset(),
            sorted_by(entries_model(out@), lex_fn()),
            forall|i: int, j: int|
                0 <= i < out@.len() && 0 <= j < rest@.len() ==> lex_leq(
                    #[trigger] out@[i]@,
                    #[trigger] rest@[j]@,
                ),
        decreases rest@.len(),
    {
        let mut min_idx: usize = 0;
        let mut k: usize = 1;
        proof {
            lemma_lex_refl(rest@[0]@);
        }
        while k < rest.len()
            invariant
                rest@.len() > 0,
                min_idx < k <= rest@.len(),
                forall|j: int| 0 <= j < k ==> lex_leq(rest@[min_idx as int]@, #[trigger] rest@[j]@),
            decreases rest@.len() - k,
        {
            if lex_leq_bytes(&rest[k], &rest[min_idx]) {
                assert forall|j: int| 0 <= j < k + 1 implies lex_leq(
                    rest@[k as int]@,
                    #[trigger] rest@[j]@,
                ) by {
                    if j < k {
                        lemma_lex_trans(rest@[k as int]@, rest@[min_idx as int]@, rest@[j]@);
                    } else {
                        lemma_lex_refl(rest@[k as int]@);
                    }
                }
                min_idx = k;
            } else {
                proof {
                    lemma_lex_total(rest@[k as int]@, rest@[min_idx as int]@);
                }
            }
            k = k + 1;
        }
        let ghost old_out = out@;
        let ghost old_rest = rest@;
        let m = rest.remove(min_idx);
        out.push(m);
        proof {
            broadcast use vstd::seq_lib::group_to_multiset_ensures;
            broadcast use vstd::multiset::group_multiset_axioms;

            assert(entries_model(old_rest)[min_idx as int] == m@);
            assert(entries_model(rest@) =~= entries_model(old_rest).remove(min_idx as int));
            assert(entries_model(out@) =~= entries_model(old_out).push(m@));
            assert(entries_model(old_out).push(m@).to_multiset() =~= entries_model(
                old_out,
            ).to_multiset().insert(m@));
            assert(entries_model(old_rest).remove(min_idx as int).to_multiset()
                =~= entries_model(old_rest).to_multiset().remove(
                entries_model(old_rest)[min_idx as int],
            ));
            assert(entries_model(out@).to_multiset() == entries_model(old_out).push(
                m@,
            ).to_multiset());
            assert(entries_model(rest@).to_multiset() == entries_model(old_rest).remove(
                min_idx as int,
            ).to_multiset());
            assert(entries_model(old_rest).contains(m@));
            assert(entries_model(old_rest).to_multiset().count(m@) > 0);
            assert(entries_model(out@).to_multiset().add(entries_model(rest@).to_multiset())
                =~= input.to_multiset());
            assert forall|i: int, j: int|
                0 <= i < out@.len() && 0 <= j < rest@.len() implies lex_leq(
                #[trigger] out@[i]@,
                #[trigger] rest@[j]@,
            ) by {
                let jj = if j < min_idx { j } else { j + 1 };
                assert(rest@[j]@ == old_rest[jj]@);
                if i < old_out.len() {
                    assert(lex_leq(out@[i]@, rest@[j]@));
                } else {
                    assert(out@[i]@ == m@);
                    assert(lex_leq(old_rest[min_idx as int]@, old_rest[jj]@));
                }
            }
            assert forall|i: int, j: int| 0 <= i < j < out@.len() implies lex_fn()(
                entries_model(out@)[i],
                entries_model(out@)[j],
            ) by {
                if j < out@.len() - 1 {
                    assert(lex_fn()(entries_model(old_out)[i], entries_model(old_out)[j]));
                } else {
                    assert(out@[j]@ == m@);
                    assert(lex_leq(out@[i]@, old_rest[min_idx as int]@));
                }
            }
        }
    }
    proof {
        broadcast use vstd::seq_lib::group_to_multiset_ensures;
        broadcast use vstd::multiset::group_multiset_axioms;

        assert(entries_model(rest@).to_multiset() =~= Multiset::<Seq<u8>>::empty());
        assert(entries_model(out@).to_multiset() =~= input.to_multiset());
    }
    out
}

/// The delimiter-joined text rendering of a list of names, in the order
/// given: names separated by a newline byte.
pub open spec fn spec_join(names: Seq<Seq<u8>>) -> Seq<u8>
    decreases names.len(),
{
    if names.len() == 0 {
        Seq::empty()
    } else if names.len() == 1 {
        names[0]
    } else {
        spec_join(names.drop_last()) + seq![10u8] + names.last()
    }
}

/// The deterministically ordered text rendering of a directory listing:
/// the names in lexicographic order, joined by newline bytes.
pub open spec fn spec_render(names: Seq<Seq<u8>>) -> Seq<u8> {
    spec_join(names.sort_by(lex_fn()))
}

fn join_entries(entries: &Vec<Vec<u8>>) -> (r: Vec<u8>)
    ensures
        r@ == spec_join(entries_model(entries@)),
{
    let ghost model = entries_model(entries@);
    let mut out: Vec<u8> = Vec::new();
    let mut i: usize = 0;
    while i < entries.len()
        invariant
            i <= entries@.len(),
            model == entries_model(entries@),
            out@ == spec_join(model.take(i as int)),
        decreases entries@.len() - i,
    {
        if i > 0 {
            out.push(10);
        }
        let e = &entries[i];
        out.extend_from_slice(e.as_slice());
        proof {
            assert(model.take(i + 1).drop_last() =~= model.take(i as int));
            assert(model.take(i + 1).last() == model[i as int]);
            if i == 0 {
                assert(out@ =~= model[0]);
                assert(model.take(1)[0] == model[0]);
            } else {
                assert(out@ =~= spec_join(model.take(i as int)) + seq![10u8] + model[i as int]);
            }
        }
        i = i + 1;
    }
    assert(model.take(entries@.len() as int) =~= model);
    out
}

/// Render a directory listing: sort the names lexicographically and join
/// them with newline bytes. The result depends only on which names are
/// present, never on the order the directory yielded them.
pub fn render_listing(entries: Vec<Vec<u8>>) -> (r: Vec<u8>)
    ensures
        r@ == spec_render(entries_model(entries@)),
{
    let ghost orig = entries_model(entries@);
    let sorted = sort_entries(entries);
    proof {
        lemma_lex_total_ordering();
        orig.lemma_sort_by_ensures(lex_fn());
        vstd::seq_lib::lemma_sorted_unique(
            entries_model(sorted@),
            orig.sort_by(lex_fn()),
            lex_fn(),
        );
        assert(entries_model(sorted@) == orig.sort_by(lex_fn()));
    }
    join_entries(&sorted)
}

/// What the caller observed while carrying out the previous action: the
/// machine consumes exactly one event per step.
#[derive(Debug, Clone, PartialEq, Eq)]
pub enum Event {
    /// A whole message arrived on the stream.
    MsgReceived(Message),
    /// The previous send went out in full.
    SendDone,
    /// Whether the named file exists in the store.
    ExistsResult(bool),
    /// The size of the named file.
    SizeResult(u64),
    /// The named file's bytes, read in full.
    FileLoaded(Vec<u8>),
    /// The uploaded bytes were written to the named file.
    WriteDone,
    /// The store's directory entry names, in whatever order it keeps them.
    ListingResult(Vec<Vec<u8>>),
    /// The named file was deleted.
    RemoveDone,
    /// The store refused to delete the named file; the bytes describe why.
    RemoveError(Vec<u8>),
}

/// Mathematical model of an [`Event`].
pub enum EventModel {
    MsgReceived(MessageModel),
    SendDone,
    ExistsResult(bool),
    SizeResult(u64),
    FileLoaded(Seq<u8>),
    WriteDone,
    ListingResult(Seq<Seq<u8>>),
    RemoveDone,
    RemoveError(Seq<u8>),
}

impl View for Event {
    type V = EventModel;

    open spec fn view(&self) -> EventModel {
        match self {
            Event::MsgReceived(m) => EventModel::MsgReceived(m@),
            Event::SendDone => EventModel::SendDone,
            Event::ExistsResult(e) => EventModel::ExistsResult(*e),
            Event::SizeResult(n) => EventModel::SizeResult(*n),
            Event::FileLoaded(d) => EventModel::FileLoaded(d@),
            Event::WriteDone => EventModel::WriteDone,
            Event::ListingResult(l) => EventModel::ListingResult(entries_model(l@)),
            Event::RemoveDone => EventModel::RemoveDone,
            Event::RemoveError(t) => EventModel::RemoveError(t@),
        }
    }
}

/// What the caller must do next. File names are handed out as the raw bytes
/// the client sent; the caller resolves them against its base directory.
#[derive(Debug, Clone, PartialEq, Eq)]
pub enum Action {
    /// Read the next message from the stream.
    Receive,
    /// Send this message on the stream.
    Send(Message),
    /// Ask the store whether the named file exists.
    CheckExists(Vec<u8>),
    /// Ask the store for the named file's size.
    QuerySize(Vec<u8>),
    /// Read the named file's bytes in full.
    LoadFile(Vec<u8>),
    /// Write the given bytes to the named file, creating or truncating it.
    StoreFile(Vec<u8>, Vec<u8>),
    /// Ask the store for its directory entry names.
    ListFiles,
    /// Delete the named file.
    DeleteFile(Vec<u8>),
    /// The exchange ended well; close the connection.
    Finish,
    /// The exchange failed; the terminal state holds why. Close the
    /// connection.
    Abort,
}

/// Mathematical model of an [`Action`].
pub enum ActionModel {
    Receive,
    Send(MessageModel),
    CheckExists(Seq<u8>),
    QuerySize(Seq<u8>),
    LoadFile(Seq<u8>),
    StoreFile(Seq<u8>, Seq<u8>),
    ListFiles,
    DeleteFile(Seq<u8>),
    Finish,
    Abort,
}

impl View for Action {
    type V = ActionModel;

    open spec fn view(&self) -> ActionModel {
        match self {
            Action::Receive => ActionModel::Receive,
            Action::Send(m) => ActionModel::Send(m@),
            Action::CheckExists(n) => ActionModel::CheckExists(n@),
            Action::QuerySize(n) => ActionModel::QuerySize(n@),
            Action::LoadFile(n) => ActionModel::LoadFile(n@),
            Action::StoreFile(n, d) => ActionModel::StoreFile(n@, d@),
            Action::ListFiles => ActionModel::ListFiles,
            Action::DeleteFile(n) => ActionModel::DeleteFile(n@),
            Action::Finish => ActionModel::Finish,
            Action::Abort => ActionModel::Abort,
        }
    }
}

/// Where one exchange stands. A fresh connection starts in [`Start`] with a
/// pending [`Action::Receive`]; `Done` and `Failed` are terminal.
///
/// [`Start`]: SessionState::Start
#[derive(Debug, Clone, PartialEq, Eq)]
pub enum SessionState {
    /// Awaiting the request that opens the exchange.
    Start,
    /// Download: asking the store whether the named file exists.
    DownloadChecking(Vec<u8>),
    /// Download: asking the store for the file's size.
    DownloadQueryingSize(Vec<u8>),
    /// Download: the size response is going out.
    DownloadSendingSize(Vec<u8>),
    /// Download: awaiting the client's bare acknowledgement of the size.
    DownloadAwaitingAck(Vec<u8>),
    /// Download: reading the file's bytes from the store.
    DownloadLoading(Vec<u8>),
    /// Download: the file's bytes are going out.
    DownloadSendingData,
    /// Download: the missing-file report is going out; the exchange then
    /// fails without a size or data step.
    DownloadSendingError,
    /// Upload: the acknowledgement of the file name is going out.
    UploadSendingAck(Vec<u8>),
    /// Upload: awaiting the file's bytes.
    UploadAwaitingData(Vec<u8>),
    /// Upload: writing the bytes to the store.
    UploadStoring,
    /// Upload: the closing acknowledgement is going out.
    UploadSendingOk,
    /// List: asking the store for its entry names.
    ListListing,
    /// List: the rendered listing is going out.
    ListSendingData,
    /// Remove: deleting the named file.
    RemoveDeleting(Vec<u8>),
    /// Remove: the acknowledgement is going out.
    RemoveSendingOk,
    /// Remove: the failure report is going out; the exchange then fails.
    RemoveSendingError(Vec<u8>),
    /// The exchange completed.
    Done,
    /// The exchange failed; the error says why.
    Failed(SessionError),
}

/// Mathematical model of a [`SessionState`].
pub enum StateModel {
    Start,
    DownloadChecking(Seq<u8>),
    DownloadQueryingSize(Seq<u8>),
    DownloadSendingSize(Seq<u8>),
    DownloadAwaitingAck(Seq<u8>),
    DownloadLoading(Seq<u8>),
    DownloadSendingData,
    DownloadSendingError,
    UploadSendingAck(Seq<u8>),
    UploadAwaitingData(Seq<u8>),
    UploadStoring,
    UploadSendingOk,
    ListListing,
    ListSendingData,
    RemoveDeleting(Seq<u8>),
    RemoveSendingOk,
    RemoveSendingError(Seq<u8>),
    Done,
    Failed(SessionErrorModel),
}

impl View for SessionState {
    type V = StateModel;

    open spec fn view(&self) -> StateModel {
        match self {
            SessionState::Start => StateModel::Start,
            SessionState::DownloadChecking(n) => StateModel::DownloadChecking(n@),
            SessionState::DownloadQueryingSize(n) => StateModel::DownloadQueryingSize(n@),
            SessionState::DownloadSendingSize(n) => StateModel::DownloadSendingSize(n@),
            SessionState::DownloadAwaitingAck(n) => StateModel::DownloadAwaitingAck(n@),
            SessionState::DownloadLoading(n) => StateModel::DownloadLoading(n@),
            SessionState::DownloadSendingData => StateModel::DownloadSendingData,
            SessionState::DownloadSendingError => StateModel::DownloadSendingError,
            SessionState::UploadSendingAck(n) => StateModel::UploadSendingAck(n@),
            SessionState::UploadAwaitingData(n) => StateModel::UploadAwaitingData(n@),
            SessionState::UploadStoring => StateModel::UploadStoring,
            SessionState::UploadSendingOk => StateModel::UploadSendingOk,
            SessionState::ListListing => StateModel::ListListing,
            SessionState::ListSendingData => StateModel::ListSendingData,
            SessionState::RemoveDeleting(n) => StateModel::RemoveDeleting(n@),
            SessionState::RemoveSendingOk => StateModel::RemoveSendingOk,
            SessionState::RemoveSendingError(t) => StateModel::RemoveSendingError(t@),
            SessionState::Done => StateModel::Done,
            SessionState::Failed(e) => StateModel::Failed(e@),
        }
    }
}

/// The text of the report sent when a download names a missing file: the
/// ASCII bytes of "File didnt exist!".
pub open spec fn spec_missing_file_text() -> Seq<u8> {
    seq![70u8, 105, 108, 101, 32, 100, 105, 100, 110, 116, 32, 101, 120, 105, 115, 116, 33]
}

/// Build the missing-file report text.
pub fn missing_file_text() -> (v: Vec<u8>)
    ensures
        v@ == spec_missing_file_text(),
{
    let v: Vec<u8> = vec![
        70u8,
        105,
        108,
        101,
        32,
        100,
        105,
        100,
        110,
        116,
        32,
        101,
        120,
        105,
        115,
        116,
        33,
    ];
    assert(v@ =~= spec_missing_file_text());
    v
}

/// What the opening request of a connection leads to, by its title. The
/// expected title always matches, so only the content checks can fail here.
pub open spec fn spec_dispatch(m: MessageModel) -> (StateModel, ActionModel) {
    match m.title {
        Title::GetRequest => match spec_unbox(m, Title::GetRequest, ContentType::FileName) {
            Ok(cs) => if cs.len() == 1 && cs[0] is Text {
                (
                    StateModel::DownloadChecking(cs[0]->Text_0),
                    ActionModel::CheckExists(cs[0]->Text_0),
                )
            } else {
                (StateModel::Failed(SessionErrorModel::WrongContentVariant), ActionModel::Abort)
            },
            Err(e) => (StateModel::Failed(e), ActionModel::Abort),
        },
        Title::SendRequest => match spec_unbox(m, Title::SendRequest, ContentType::FileName) {
            Ok(cs) => if cs.len() == 1 && cs[0] is Text {
                (
                    StateModel::UploadSendingAck(cs[0]->Text_0),
                    ActionModel::Send(spec_bare_ok(Title::SendRequest)),
                )
            } else {
                (StateModel::Failed(SessionErrorModel::WrongContentVariant), ActionModel::Abort)
            },
            Err(e) => (StateModel::Failed(e), ActionModel::Abort),
        },
        Title::FileListRequest => match spec_unbox(
            m,
            Title::FileListRequest,
            ContentType::NoContent,
        ) {
            Ok(_) => (StateModel::ListListing, ActionModel::ListFiles),
            Err(e) => (StateModel::Failed(e), ActionModel::Abort),
        },
        Title::RemoveRequest => match spec_unbox(m, Title::RemoveRequest, ContentType::FileName) {
            Ok(cs) => if cs.len() == 1 && cs[0] is Text {
                (
                    StateModel::RemoveDeleting(cs[0]->Text_0),
                    ActionModel::DeleteFile(cs[0]->Text_0),
                )
            } else {
                (StateModel::Failed(SessionErrorModel::WrongContentVariant), ActionModel::Abort)
            },
            Err(e) => (StateModel::Failed(e), ActionModel::Abort),
        },
    }
}

/// The transition relation of one exchange: from a state and the event the
/// caller observed to the next state and the next action. An event that the
/// state cannot consume fails the exchange; the terminal states absorb every
/// event.
pub open spec fn spec_step(state: StateModel, event: EventModel) -> (StateModel, ActionModel) {
    match (state, event) {
        (StateModel::Start, EventModel::MsgReceived(m)) => spec_dispatch(m),
        (StateModel::DownloadChecking(name), EventModel::ExistsResult(present)) => if present {
            (StateModel::DownloadQueryingSize(name), ActionModel::QuerySize(name))
        } else {
            (
                StateModel::DownloadSendingError,
                ActionModel::Send(
                    spec_error_message(Title::GetRequest, spec_missing_file_text()),
                ),
            )
        },
        (StateModel::DownloadSendingError, EventModel::SendDone) => (
            StateModel::Failed(SessionErrorModel::FileMissing),
            ActionModel::Abort,
        ),
        (StateModel::DownloadQueryingSize(name), EventModel::SizeResult(size)) => (
            StateModel::DownloadSendingSize(name),
            ActionModel::Send(spec_size_message(Title::GetRequest, size)),
        ),
        (StateModel::DownloadSendingSize(name), EventModel::SendDone) => (
            StateModel::DownloadAwaitingAck(name),
            ActionModel::Receive,
        ),
        (StateModel::DownloadAwaitingAck(name), EventModel::MsgReceived(m)) => match spec_unbox(
            m,
            Title::GetRequest,
            ContentType::NoContent,
        ) {
            Ok(_) => (StateModel::DownloadLoading(name), ActionModel::LoadFile(name)),
            Err(e) => (StateModel::Failed(e), ActionModel::Abort),
        },
        (StateModel::DownloadLoading(_), EventModel::FileLoaded(data)) => (
            StateModel::DownloadSendingData,
            ActionModel::Send(spec_data_message(Title::GetRequest, data)),
        ),
        (StateModel::DownloadSendingData, EventModel::SendDone) => (
            StateModel::Done,
            ActionModel::Finish,
        ),
        (StateModel::UploadSendingAck(name), EventModel::SendDone) => (
            StateModel::UploadAwaitingData(name),
            ActionModel::Receive,
        ),
        (StateModel::UploadAwaitingData(name), EventModel::MsgReceived(m)) => match spec_unbox(
            m,
            Title::SendRequest,
            ContentType::FileData,
        ) {
            Ok(cs) => if cs.len() == 1 && cs[0] is Binary {
                (StateModel::UploadStoring, ActionModel::StoreFile(name, cs[0]->Binary_0))
            } else {
                (StateModel::Failed(SessionErrorModel::WrongContentVariant), ActionModel::Abort)
            },
            Err(e) => (StateModel::Failed(e), ActionModel::Abort),
        },
        (StateModel::UploadStoring, EventModel::WriteDone) => (
            StateModel::UploadSendingOk,
            ActionModel::Send(spec_bare_ok(Title::SendRequest)),
        ),
        (StateModel::UploadSendingOk, EventModel::SendDone) => (
            StateModel::Done,
            ActionModel::Finish,
        ),
        (StateModel::ListListing, EventModel::ListingResult(names)) => (
            StateModel::ListSendingData,
            ActionModel::Send(spec_data_message(Title::FileListRequest, spec_render(names))),
        ),
        (StateModel::ListSendingData, EventModel::SendDone) => (
            StateModel::Done,
            ActionModel::Finish,
        ),
        (StateModel::RemoveDeleting(_), EventModel::RemoveDone) => (
            StateModel::RemoveSendingOk,
            ActionModel::Send(spec_bare_ok(Title::RemoveRequest)),
        ),
        (StateModel::RemoveDeleting(_), EventModel::RemoveError(reason)) => (
            StateModel::RemoveSendingError(reason),
            ActionModel::Send(spec_error_message(Title::RemoveRequest, reason)),
        ),
        (StateModel::RemoveSendingOk, EventModel::SendDone) => (
            StateModel::Done,
            ActionModel::Finish,
        ),
        (StateModel::RemoveSendingError(reason), EventModel::SendDone) => (
            StateModel::Failed(SessionErrorModel::RemoveRejected(reason)),
            ActionModel::Abort,
        ),
        (StateModel::Done, _) => (StateModel::Done, ActionModel::Finish),
        (StateModel::Failed(e), _) => (StateModel::Failed(e), ActionModel::Abort),
        _ => (StateModel::Failed(SessionErrorModel::UnexpectedEvent), ActionModel::Abort),
    }
}

impl SessionState {
    /// The state a fresh connection starts in; the caller's first action is
    /// to receive the opening request.
    pub fn start() -> (s: Self)
        ensures
            s@ == StateModel::Start,
    {
        SessionState::Start
    }

    /// Take one step of the exchange: consume the event the caller observed
    /// and hand back the next state and the next action, exactly as
    /// [`spec_step`] says.
    pub fn step(self, event: Event) -> (r: (SessionState, Action))
        ensures
            (r.0@, r.1@) == spec_step(self@, event@),
    {
        match (self, event) {
            (SessionState::Start, Event::MsgReceived(m)) => {
                let ghost mm = m@;
                let title = m.title;
                match title {
                    Title::GetRequest => {
                        match unbox_message(m, Title::GetRequest, ContentType::FileName) {
                            Ok(cs) => Self::name_step(cs, Ghost(mm), NameStepKind::Download),
                            Err(e) => (SessionState::Failed(e), Action::Abort),
                        }
                    },
                    Title::SendRequest => {
                        match unbox_message(m, Title::SendRequest, ContentType::FileName) {
                            Ok(cs) => Self::name_step(cs, Ghost(mm), NameStepKind::Upload),
                            Err(e) => (SessionState::Failed(e), Action::Abort),
                        }
                    },
                    Title::FileListRequest => {
                        match unbox_message(m, Title::FileListRequest, ContentType::NoContent) {
                            Ok(_) => (SessionState::ListListing, Action::ListFiles),
                            Err(e) => (SessionState::Failed(e), Action::Abort),
                        }
                    },
                    Title::RemoveRequest => {
                        match unbox_message(m, Title::RemoveRequest, ContentType::FileName) {
                            Ok(cs) => Self::name_step(cs, Ghost(mm), NameStepKind::Remove),
                            Err(e) => (SessionState::Failed(e), Action::Abort),
                        }
                    },
                }
            },
            (SessionState::DownloadChecking(name), Event::ExistsResult(present)) => {
                if present {
                    let action = Action::QuerySize(name.clone());
                    (SessionState::DownloadQueryingSize(name), action)
                } else {
                    (
                        SessionState::DownloadSendingError,
                        Action::Send(error_message(Title::GetRequest, missing_file_text())),
                    )
                }
            },
            (SessionState::DownloadSendingError, Event::SendDone) => (
                SessionState::Failed(SessionError::FileMissing),
                Action::Abort,
            ),
            (SessionState::DownloadQueryingSize(name), Event::SizeResult(size)) => (
                SessionState::DownloadSendingSize(name),
                Action::Send(size_message(Title::GetRequest, size)),
            ),
            (SessionState::DownloadSendingSize(name), Event::SendDone) => (
                SessionState::DownloadAwaitingAck(name),
                Action::Receive,
            ),
            (SessionState::DownloadAwaitingAck(name), Event::MsgReceived(m)) => {
                match unbox_message(m, Title::GetRequest, ContentType::NoContent) {
                    Ok(_) => {
                        let action = Action::LoadFile(name.clone());
                        (SessionState::DownloadLoading(name), action)
                    },
                    Err(e) => (SessionState::Failed(e), Action::Abort),
                }
            },
            (SessionState::DownloadLoading(_), Event::FileLoaded(data)) => (
                SessionState::DownloadSendingData,
                Action::Send(data_message(Title::GetRequest, data)),
            ),
            (SessionState::DownloadSendingData, Event::SendDone) => (
                SessionState::Done,
                Action::Finish,
            ),
            (SessionState::UploadSendingAck(name), Event::SendDone) => (
                SessionState::UploadAwaitingData(name),
                Action::Receive,
            ),
            (SessionState::UploadAwaitingData(name), Event::MsgReceived(m)) => {
                match unbox_message(m, Title::SendRequest, ContentType::FileData) {
                    Ok(mut cs) => {
                        if cs.len() == 1 {
                            let c = cs.pop().unwrap();
                            match c {
                                Content::Binary(data) => {
                                    assert(contents_model(cs@.push(Content::Binary(data)))[0]
                                        == ContentModel::Binary(data@));
                                    (
                                        SessionState::UploadStoring,
                                        Action::StoreFile(name, data),
                                    )
                                },
                                _ => (
                                    SessionState::Failed(SessionError::WrongContentVariant),
                                    Action::Abort,
                                ),
                            }
                        } else {
                            (
                                SessionState::Failed(SessionError::WrongContentVariant),
                                Action::Abort,
                            )
                        }
                    },
                    Err(e) => (SessionState::Failed(e), Action::Abort),
                }
            },
            (SessionState::UploadStoring, Event::WriteDone) => (
                SessionState::UploadSendingOk,
                Action::Send(bare_ok(Title::SendRequest)),
            ),
            (SessionState::UploadSendingOk, Event::SendDone) => (
                SessionState::Done,
                Action::Finish,
            ),
            (SessionState::ListListing, Event::ListingResult(names)) => (
                SessionState::ListSendingData,
                Action::Send(data_message(Title::FileListRequest, render_listing(names))),
            ),
            (SessionState::ListSendingData, Event::SendDone) => (
                SessionState::Done,
                Action::Finish,
            ),
            (SessionState::RemoveDeleting(_), Event::RemoveDone) => (
                SessionState::RemoveSendingOk,
                Action::Send(bare_ok(Title::RemoveRequest)),
            ),
            (SessionState::RemoveDeleting(_), Event::RemoveError(reason)) => {
                let message = error_message(Title::RemoveRequest, reason.clone());
                (SessionState::RemoveSendingError(reason), Action::Send(message))
            },
            (SessionState::RemoveSendingOk, Event::SendDone) => (
                SessionState::Done,
                Action::Finish,
            ),
            (SessionState::RemoveSendingError(reason), Event::SendDone) => (
                SessionState::Failed(SessionError::RemoveRejected(reason)),
                Action::Abort,
            ),
            (SessionState::Done, _) => (SessionState::Done, Action::Finish),
            (SessionState::Failed(e), _) => (SessionState::Failed(e), Action::Abort),
            _ => (SessionState::Failed(SessionError::UnexpectedEvent), Action::Abort),
        }
    }

    /// Shared tail of the three opening requests that carry a file name:
    /// check that the single content element is a text, and enter the
    /// sub-protocol that the request's title picked.
    fn name_step(mut cs: Vec<Content>, Ghost(m): Ghost<MessageModel>, kind: NameStepKind) -> (r:
        (SessionState, Action))
        requires
            ({
                let title = match kind {
                    NameStepKind::Download => Title::GetRequest,
                    NameStepKind::Upload => Title::SendRequest,
                    NameStepKind::Remove => Title::RemoveRequest,
                };
                spec_unbox(m, title, ContentType::FileName) == Ok::<_, SessionErrorModel>(
                    contents_model(cs@),
                )
            }),
            m.title == (match kind {
                NameStepKind::Download => Title::GetRequest,
                NameStepKind::Upload => Title::SendRequest,
                NameStepKind::Remove => Title::RemoveRequest,
            }),
        ensures
            (r.0@, r.1@) == spec_dispatch(m),
    {
        if cs.len() == 1 {
            let c = cs.pop().unwrap();
            match c {
                Content::Text(name) => {
                    assert(contents_model(cs@.push(Content::Text(name)))[0]
                        == ContentModel::Text(name@));
                    match kind {
                        NameStepKind::Download => {
                            let action = Action::CheckExists(name.clone());
                            (SessionState::DownloadChecking(name), action)
                        },
                        NameStepKind::Upload => (
                            SessionState::UploadSendingAck(name),
                            Action::Send(bare_ok(Title::SendRequest)),
                        ),
                        NameStepKind::Remove => {
                            let action = Action::DeleteFile(name.clone());
                            (SessionState::RemoveDeleting(name), action)
                        },
                    }
                },
                _ => (SessionState::Failed(SessionError::WrongContentVariant), Action::Abort),
            }
        } else {
            (SessionState::Failed(SessionError::WrongContentVariant), Action::Abort)
        }
    }
}

/// Which sub-protocol an opening request that carries a file name enters.
enum NameStepKind {
    Download,
    Upload,
    Remove,
}

/// A client request that carries a file name.
pub open spec fn spec_name_request(title: Title, name: Seq<u8>) -> MessageModel {
    MessageModel {
        title,
        sub_title: SubTitile::Success,
        content_type: ContentType::FileName,
        content_array: seq![ContentModel::Text(name)],
    }
}

/// Download: for an existing file the exchange answers the request with the
/// file's size, and after the client's bare acknowledgement with the file's
/// bytes unchanged, then ends well.
pub proof fn lemma_download_exchange(name: Seq<u8>, size: u64, data: Seq<u8>, ack: MessageModel)
    requires
        spec_unbox(ack, Title::GetRequest, ContentType::NoContent) is Ok,
    ensures
        spec_step(
            StateModel::Start,
            EventModel::MsgReceived(spec_name_request(Title::GetRequest, name)),
        ) == (StateModel::DownloadChecking(name), ActionModel::CheckExists(name)),
        spec_step(StateModel::DownloadChecking(name), EventModel::ExistsResult(true)) == (
            StateModel::DownloadQueryingSize(name),
            ActionModel::QuerySize(name),
        ),
        spec_step(StateModel::DownloadQueryingSize(name), EventModel::SizeResult(size)) == (
            StateModel::DownloadSendingSize(name),
            ActionModel::Send(spec_size_message(Title::GetRequest, size)),
        ),
        spec_step(StateModel::DownloadSendingSize(name), EventModel::SendDone) == (
            StateModel::DownloadAwaitingAck(name),
            ActionModel::Receive,
        ),
        spec_step(StateModel::DownloadAwaitingAck(name), EventModel::MsgReceived(ack)) == (
            StateModel::DownloadLoading(name),
            ActionModel::LoadFile(name),
        ),
        spec_step(StateModel::DownloadLoading(name), EventModel::FileLoaded(data)) == (
            StateModel::DownloadSendingData,
            ActionModel::Send(spec_data_message(Title::GetRequest, data)),
        ),
        spec_step(StateModel::DownloadSendingData, EventModel::SendDone) == (
            StateModel::Done,
            ActionModel::Finish,
        ),
{
}

/// Download of a missing file: the exchange reports "File didnt exist!" as a
/// failure and ends failed, with no size or data step following.
pub proof fn lemma_download_missing(name: Seq<u8>)
    ensures
        spec_step(
            StateModel::Start,
            EventModel::MsgReceived(spec_name_request(Title::GetRequest, name)),
        ) == (StateModel::DownloadChecking(name), ActionModel::CheckExists(name)),
        spec_step(StateModel::DownloadChecking(name), EventModel::ExistsResult(false)) == (
            StateModel::DownloadSendingError,
            ActionModel::Send(spec_error_message(Title::GetRequest, spec_missing_file_text())),
        ),
        spec_step(StateModel::DownloadSendingError, EventModel::SendDone) == (
            StateModel::Failed(SessionErrorModel::FileMissing),
            ActionModel::Abort,
        ),
{
}

/// Upload: the exchange acknowledges the file name, stores the uploaded
/// bytes unchanged under that name, acknowledges once more, and ends well.
pub proof fn lemma_upload_exchange(name: Seq<u8>, data: Seq<u8>)
    ensures
        spec_step(
            StateModel::Start,
            EventModel::MsgReceived(spec_name_request(Title::SendRequest, name)),
        ) == (
            StateModel::UploadSendingAck(name),
            ActionModel::Send(spec_bare_ok(Title::SendRequest)),
        ),
        spec_step(StateModel::UploadSendingAck(name), EventModel::SendDone) == (
            StateModel::UploadAwaitingData(name),
            ActionModel::Receive,
        ),
        spec_step(
            StateModel::UploadAwaitingData(name),
            EventModel::MsgReceived(spec_data_message(Title::SendRequest, data)),
        ) == (StateModel::UploadStoring, ActionModel::StoreFile(name, data)),
        spec_step(StateModel::UploadStoring, EventModel::WriteDone) == (
            StateModel::UploadSendingOk,
            ActionModel::Send(spec_bare_ok(Title::SendRequest)),
        ),
        spec_step(StateModel::UploadSendingOk, EventModel::SendDone) == (
            StateModel::Done,
            ActionModel::Finish,
        ),
{
}

/// Remove: deleting an existing file is acknowledged and the exchange ends
/// well; a refused delete is answered with the store's reason as a failure
/// report and the exchange ends failed.
pub proof fn lemma_remove_exchange(name: Seq<u8>, reason: Seq<u8>)
    ensures
        spec_step(
            StateModel::Start,
            EventModel::MsgReceived(spec_name_request(Title::RemoveRequest, name)),
        ) == (StateModel::RemoveDeleting(name), ActionModel::DeleteFile(name)),
        spec_step(StateModel::RemoveDeleting(name), EventModel::RemoveDone) == (
            StateModel::RemoveSendingOk,
            ActionModel::Send(spec_bare_ok(Title::RemoveRequest)),
        ),
        spec_step(StateModel::RemoveSendingOk, EventModel::SendDone) == (
            StateModel::Done,
            ActionModel::Finish,
        ),
        spec_step(StateModel::RemoveDeleting(name), EventModel::RemoveError(reason)) == (
            StateModel::RemoveSendingError(reason),
            ActionModel::Send(spec_error_message(Title::RemoveRequest, reason)),
        ),
        spec_step(StateModel::RemoveSendingError(reason), EventModel::SendDone) == (
            StateModel::Failed(SessionErrorModel::RemoveRejected(reason)),
            ActionModel::Abort,
        ),
{
}

/// Listing an unchanged directory twice yields the identical rendering:
/// two listings that hold the same names, in whatever order the directory
/// handed them out, render to the same bytes.
pub proof fn lemma_render_permutation(a: Seq<Seq<u8>>, b: Seq<Seq<u8>>)
    requires
        a.to_multiset() == b.to_multiset(),
    ensures
        spec_render(a) == spec_render(b),
{
    lemma_lex_total_ordering();
    a.lemma_sort_by_ensures(lex_fn());
    b.lemma_sort_by_ensures(lex_fn());
    vstd::seq_lib::lemma_sorted_unique(a.sort_by(lex_fn()), b.sort_by(lex_fn()), lex_fn());
}

} // verus!
