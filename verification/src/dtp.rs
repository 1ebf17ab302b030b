//! The wire codec: one in-memory [`Message`] to and from its byte encoding.
//!
//! Layout: one tag byte each for the title, the sub-title and the content
//! type, then each content element in order. A text element occupies a fixed
//! 255-byte field (the text as a prefix, zero-padded); a number element is an
//! unsigned 64-bit little-endian field; a binary element is raw bytes and must
//! come last, since the decoder reads it as "all remaining bytes".
use vstd::prelude::*;

verus! {

/// Operation or response category of a message. Every message of one
/// exchange, request and responses alike, carries the same title.
#[derive(Debug, Clone, Copy, PartialEq, Eq, Structural)]
pub enum Title {
    GetRequest,
    SendRequest,
    FileListRequest,
    RemoveRequest,
}

/// Success or failure marker of a message, orthogonal to the title.
#[derive(Debug, Clone, Copy, PartialEq, Eq, Structural)]
pub enum SubTitile {
    Success,
    Failure,
}

/// Payload-shape discriminator: says how many content elements a message
/// carries and of which variant.
#[derive(Debug, Clone, Copy, PartialEq, Eq, Structural)]
pub enum ContentType {
    NoContent,
    ErrMessage,
    FileName,
    FileSize,
    FileData,
}

/// One typed payload element: text bytes, an unsigned 64-bit number, or raw
/// bytes. Text is carried as bytes because the wire format is byte-oriented:
/// a text field is truncated at its first zero byte when decoded and cannot
/// exceed 255 bytes when encoded.
#[derive(Debug, Clone, PartialEq, Eq)]
pub enum Content {
    Text(Vec<u8>),
    Number(u64),
    Binary(Vec<u8>),
}

/// Mathematical model of a [`Content`] element.
pub enum ContentModel {
    Text(Seq<u8>),
    Number(u64),
    Binary(Seq<u8>),
}

impl View for Content {
    type V = ContentModel;

    open spec fn view(&self) -> ContentModel {
        match self {
            Content::Text(t) => ContentModel::Text(t@),
            Content::Number(n) => ContentModel::Number(*n),
            Content::Binary(b) => ContentModel::Binary(b@),
        }
    }
}

/// One application-level protocol unit.
#[derive(Debug, Clone, PartialEq, Eq)]
pub struct Message {
    pub title: Title,
    pub sub_title: SubTitile,
    pub content_type: ContentType,
    pub content_array: Vec<Content>,
}

/// Mathematical model of a [`Message`].
pub struct MessageModel {
    pub title: Title,
    pub sub_title: SubTitile,
    pub content_type: ContentType,
    pub content_array: Seq<ContentModel>,
}

impl View for Message {
    type V = MessageModel;

    open spec fn view(&self) -> MessageModel {
        MessageModel {
            title: self.title,
            sub_title: self.sub_title,
            content_type: self.content_type,
            content_array: self.content_array@.map_values(|c: Content| c@),
        }
    }
}

impl Title {
    /// The tag byte that stands for this title on the wire.
    pub open spec fn spec_value(&self) -> u8 {
        match self {
            Title::GetRequest => 0,
            Title::SendRequest => 1,
            Title::FileListRequest => 2,
            Title::RemoveRequest => 3,
        }
    }

    #[verifier::when_used_as_spec(spec_value)]
    pub fn value(&self) -> (v: u8)
        ensures
            v == self.spec_value(),
    {
        match self {
            Title::GetRequest => 0,
            Title::SendRequest => 1,
            Title::FileListRequest => 2,
            Title::RemoveRequest => 3,
        }
    }
}

impl SubTitile {
    /// The tag byte that stands for this sub-title on the wire.
    pub open spec fn spec_value(&self) -> u8 {
        match self {
            SubTitile::Success => 0,
            SubTitile::Failure => 1,
        }
    }

    #[verifier::when_used_as_spec(spec_value)]
    pub fn value(&self) -> (v: u8)
        ensures
            v == self.spec_value(),
    {
        match self {
            SubTitile::Success => 0,
            SubTitile::Failure => 1,
        }
    }
}

impl ContentType {
    /// The tag byte that stands for this content type on the wire.
    pub open spec fn spec_value(&self) -> u8 {
        match self {
            ContentType::NoContent => 0,
            ContentType::ErrMessage => 1,
            ContentType::FileName => 2,
            ContentType::FileSize => 3,
            ContentType::FileData => 4,
        }
    }

    #[verifier::when_used_as_spec(spec_value)]
    pub fn value(&self) -> (v: u8)
        ensures
            v == self.spec_value(),
    {
        match self {
            ContentType::NoContent => 0,
            ContentType::ErrMessage => 1,
            ContentType::FileName => 2,
            ContentType::FileSize => 3,
            ContentType::FileData => 4,
        }
    }
}

/// The byte encoding of one content element. A text element is meaningful
/// only when its bytes fit the fixed 255-byte field; [`content_encodable`]
/// states that bound and the encoder rejects anything beyond it.
pub open spec fn spec_encode_content(c: ContentModel) -> Seq<u8> {
    match c {
        ContentModel::Text(t) => t + Seq::new((255 - t.len()) as nat, |i: int| 0u8),
        ContentModel::Number(n) => vstd::bytes::spec_u64_to_le_bytes(n),
        ContentModel::Binary(b) => b,
    }
}

/// A content element the encoder accepts: text must fit the 255-byte field.
pub open spec fn content_encodable(c: ContentModel) -> bool {
    c matches ContentModel::Text(t) ==> t.len() <= 255
}

/// The concatenated byte encoding of a sequence of content elements.
pub open spec fn spec_encode_contents(cs: Seq<ContentModel>) -> Seq<u8>
    decreases cs.len(),
{
    if cs.len() == 0 {
        Seq::empty()
    } else {
        spec_encode_contents(cs.drop_last()) + spec_encode_content(cs.last())
    }
}

/// A message the encoder accepts: every text element fits its field.
pub open spec fn message_encodable(m: MessageModel) -> bool {
    forall|i: int|
        0 <= i < m.content_array.len() ==> content_encodable(#[trigger] m.content_array[i])
}

/// The byte encoding of a whole message: the three tag bytes, then each
/// content element in order.
pub open spec fn spec_encode(m: MessageModel) -> Seq<u8> {
    seq![m.title.spec_value(), m.sub_title.spec_value(), m.content_type.spec_value()]
        + spec_encode_contents(m.content_array)
}

/// The title a tag byte stands for, if any.
pub open spec fn spec_decode_title(b: u8) -> Option<Title> {
    if b == 0 {
        Some(Title::GetRequest)
    } else if b == 1 {
        Some(Title::SendRequest)
    } else if b == 2 {
        Some(Title::FileListRequest)
    } else if b == 3 {
        Some(Title::RemoveRequest)
    } else {
        None
    }
}

/// The sub-title a tag byte stands for, if any.
pub open spec fn spec_decode_sub_title(b: u8) -> Option<SubTitile> {
    if b == 0 {
        Some(SubTitile::Success)
    } else if b == 1 {
        Some(SubTitile::Failure)
    } else {
        None
    }
}

/// The content type a tag byte stands for, if any.
pub open spec fn spec_decode_content_type(b: u8) -> Option<ContentType> {
    if b == 0 {
        Some(ContentType::NoContent)
    } else if b == 1 {
        Some(ContentType::ErrMessage)
    } else if b == 2 {
        Some(ContentType::FileName)
    } else if b == 3 {
        Some(ContentType::FileSize)
    } else if b == 4 {
        Some(ContentType::FileData)
    } else {
        None
    }
}

/// The longest prefix free of zero bytes: how a decoded text field reads its
/// bytes. A zero byte ends the text, so an embedded zero truncates it early.
pub open spec fn spec_take_until_zero(s: Seq<u8>) -> Seq<u8>
    decreases s.len(),
{
    if s.len() == 0 || s[0] == 0 {
        Seq::empty()
    } else {
        seq![s[0]] + spec_take_until_zero(s.drop_first())
    }
}

/// What a byte sequence decodes to, if anything. The content type read from
/// the third byte governs how the trailing bytes are read: nothing, a
/// zero-terminated text, an 8-byte little-endian number, or all remaining
/// bytes as binary. Trailing bytes beyond what the content type asks for are
/// ignored; the format cannot detect them.
pub open spec fn spec_decode(bytes: Seq<u8>) -> Option<MessageModel> {
    if bytes.len() < 3 {
        None
    } else {
        match (spec_decode_title(bytes[0]), spec_decode_sub_title(bytes[1]),
        spec_decode_content_type(bytes[2])) {
            (Some(title), Some(sub_title), Some(content_type)) => {
                let rest = bytes.skip(3);
                match content_type {
                    ContentType::NoContent => Some(
                        MessageModel {
                            title,
                            sub_title,
                            content_type,
                            content_array: Seq::empty(),
                        },
                    ),
                    ContentType::ErrMessage => Some(
                        MessageModel {
                            title,
                            sub_title,
                            content_type,
                            content_array: seq![
                                ContentModel::Text(spec_take_until_zero(rest)),
                            ],
                        },
                    ),
                    ContentType::FileName => Some(
                        MessageModel {
                            title,
                            sub_title,
                            content_type,
                            content_array: seq![
                                ContentModel::Text(spec_take_until_zero(rest)),
                            ],
                        },
                    ),
                    ContentType::FileSize => if bytes.len() >= 11 {
                        Some(
                            MessageModel {
                                title,
                                sub_title,
                                content_type,
                                content_array: seq![
                                    ContentModel::Number(
                                        vstd::bytes::spec_u64_from_le_bytes(
                                            bytes.subrange(3, 11),
                                        ),
                                    ),
                                ],
                            },
                        )
                    } else {
                        None
                    },
                    ContentType::FileData => Some(
                        MessageModel {
                            title,
                            sub_title,
                            content_type,
                            content_array: seq![ContentModel::Binary(rest)],
                        },
                    ),
                }
            },
            _ => None,
        }
    }
}

proof fn lemma_take_until_zero_is_prefix(s: Seq<u8>, k: int)
    requires
        0 <= k <= s.len(),
        forall|j: int| 0 <= j < k ==> s[j] != 0,
        k == s.len() || s[k] == 0,
    ensures
        spec_take_until_zero(s) == s.subrange(0, k),
    decreases k,
{
    if k == 0 {
        assert(s.subrange(0, 0) =~= Seq::<u8>::empty());
    } else {
        lemma_take_until_zero_is_prefix(s.drop_first(), k - 1);
        assert(s.subrange(0, k) =~= seq![s[0]] + s.drop_first().subrange(0, k - 1));
    }
}

/// The shape invariant of a message: the content array's shape is fully
/// determined by the content type.
pub open spec fn message_wf(m: MessageModel) -> bool {
    match m.content_type {
        ContentType::NoContent => m.content_array.len() == 0,
        ContentType::ErrMessage => m.content_array.len() == 1 && m.content_array[0] is Text,
        ContentType::FileName => m.content_array.len() == 1 && m.content_array[0] is Text,
        ContentType::FileSize => m.content_array.len() == 1 && m.content_array[0] is Number,
        ContentType::FileData => m.content_array.len() == 1 && m.content_array[0] is Binary,
    }
}

/// A text element that survives the wire unchanged: it fits its fixed field
/// and holds no zero byte, since a zero byte would truncate it when decoded.
pub open spec fn content_roundtrippable(c: ContentModel) -> bool {
    c matches ContentModel::Text(t) ==> t.len() <= 255 && (forall|i: int|
        0 <= i < t.len() ==> t[i] != 0)
}

/// A message the codec carries losslessly: well-formed, with every text
/// element within its field and free of zero bytes.
pub open spec fn message_roundtrippable(m: MessageModel) -> bool {
    &&& message_wf(m)
    &&& forall|i: int|
        0 <= i < m.content_array.len() ==> content_roundtrippable(#[trigger] m.content_array[i])
}

/// Round trip: decoding the encoding of any round-trippable message gives
/// that message back.
pub proof fn lemma_round_trip(m: MessageModel)
    requires
        message_roundtrippable(m),
    ensures
        spec_decode(spec_encode(m)) == Some(m),
{
    let bytes = spec_encode(m);
    let contents = spec_encode_contents(m.content_array);
    assert(bytes[0] == m.title.spec_value());
    assert(bytes[1] == m.sub_title.spec_value());
    assert(bytes[2] == m.content_type.spec_value());
    assert(spec_decode_title(bytes[0]) == Some(m.title));
    assert(spec_decode_sub_title(bytes[1]) == Some(m.sub_title));
    assert(spec_decode_content_type(bytes[2]) == Some(m.content_type));
    assert(bytes.skip(3) =~= contents);
    if m.content_array.len() == 1 {
        assert(m.content_array.drop_last() =~= Seq::<ContentModel>::empty());
        assert(spec_encode_contents(Seq::<ContentModel>::empty()) == Seq::<u8>::empty());
        assert(contents =~= spec_encode_content(m.content_array[0]));
    }
    match m.content_type {
        ContentType::NoContent => {
            let dd = spec_decode(bytes);
            assert(dd matches Some(mm) && mm.content_array =~= m.content_array);
        },
        ContentType::ErrMessage => {
            lemma_round_trip_text(m, bytes);
        },
        ContentType::FileName => {
            lemma_round_trip_text(m, bytes);
        },
        ContentType::FileSize => {
            let n = m.content_array[0]->Number_0;
            vstd::bytes::lemma_auto_spec_u64_to_from_le_bytes();
            assert(contents.len() == 8);
            assert(bytes.subrange(3, 11) =~= vstd::bytes::spec_u64_to_le_bytes(n));
            let dd = spec_decode(bytes);
            assert(dd matches Some(mm) && mm.content_array =~= m.content_array);
        },
        ContentType::FileData => {
            let dd = spec_decode(bytes);
            assert(dd matches Some(mm) && mm.content_array =~= m.content_array);
        },
    }
}

proof fn lemma_round_trip_text(m: MessageModel, bytes: Seq<u8>)
    requires
        message_roundtrippable(m),
        m.content_type == ContentType::ErrMessage || m.content_type == ContentType::FileName,
        bytes == spec_encode(m),
        bytes.skip(3) == spec_encode_content(m.content_array[0]),
    ensures
        spec_decode(bytes) == Some(m),
{
    let t = m.content_array[0]->Text_0;
    let field = bytes.skip(3);
    assert(field =~= t + Seq::new((255 - t.len()) as nat, |i: int| 0u8));
    assert(forall|j: int| 0 <= j < t.len() ==> field[j] != 0);
    if t.len() < 255 {
        assert(field[t.len() as int] == 0);
    }
    lemma_take_until_zero_is_prefix(field, t.len() as int);
    assert(spec_take_until_zero(field) =~= t);
    let dd = spec_decode(bytes);
    assert(dd matches Some(mm) && mm.content_array =~= m.content_array);
}

proof fn lemma_encode_contents_push(cs: Seq<ContentModel>, c: ContentModel)
    ensures
        spec_encode_contents(cs.push(c)) == spec_encode_contents(cs) + spec_encode_content(c),
{
    assert(cs.push(c).drop_last() =~= cs);
    assert(cs.push(c).last() == c);
}

impl Message {
    pub fn new(
        title: Title,
        sub_title: SubTitile,
        content_type: ContentType,
        content_array: Vec<Content>,
    ) -> (m: Self)
        ensures
            m.title == title,
            m.sub_title == sub_title,
            m.content_type == content_type,
            m.content_array == content_array,
    {
        Self { title, sub_title, content_type, content_array }
    }

    /// Serialize this message. Returns the encoded bytes, or an error when
    /// some text element exceeds the fixed 255-byte field.
    pub fn as_bytes(&self) -> (r: Result<Vec<u8>, &'static str>)
        ensures
            r matches Ok(bytes) ==> message_encodable(self@) && bytes@ == spec_encode(self@),
            r matches Err(e) ==> !message_encodable(self@) && e@ == "String len more than 255!"@,
    {
        let ghost tags: Seq<u8> = seq![
            self.title.spec_value(),
            self.sub_title.spec_value(),
            self.content_type.spec_value(),
        ];
        let mut bytes: Vec<u8> = Vec::new();
        bytes.push(self.title.value());
        bytes.push(self.sub_title.value());
        bytes.push(self.content_type.value());
        assert(bytes@ =~= tags);
        let mut idx: usize = 0;
        while idx < self.content_array.len()
            invariant
                idx <= self.content_array.len(),
                self@.content_array.len() == self.content_array.len(),
                bytes@ == tags + spec_encode_contents(self@.content_array.take(idx as int)),
                forall|i: int|
                    0 <= i < idx ==> content_encodable(#[trigger] self@.content_array[i]),
            decreases self.content_array.len() - idx,
        {
            let ghost prefix = bytes@;
            match &self.content_array[idx] {
                Content::Text(t) => {
                    if t.len() <= 255 {
                        bytes.extend_from_slice(t.as_slice());
                        let mut j: usize = t.len();
                        while j < 255
                            invariant
                                t@.len() <= j <= 255,
                                bytes@ == prefix + t@
                                    + Seq::new((j - t@.len()) as nat, |i: int| 0u8),
                            decreases 255 - j,
                        {
                            bytes.push(0);
                            assert(Seq::new((j + 1 - t@.len()) as nat, |i: int| 0u8)
                                =~= Seq::new((j - t@.len()) as nat, |i: int| 0u8).push(0u8));
                            assert(bytes@ =~= prefix + t@
                                + Seq::new((j + 1 - t@.len()) as nat, |i: int| 0u8));
                            j = j + 1;
                        }
                    } else {
                        assert(!content_encodable(self@.content_array[idx as int]));
                        return Err("String len more than 255!");
                    }
                },
                Content::Number(n) => {
                    let mut nb = vstd::bytes::u64_to_le_bytes(*n);
                    bytes.append(&mut nb);
                },
                Content::Binary(b) => {
                    bytes.extend_from_slice(b.as_slice());
                },
            }
            assert(bytes@ =~= prefix + spec_encode_content(self@.content_array[idx as int]));
            proof {
                lemma_encode_contents_push(
                    self@.content_array.take(idx as int),
                    self@.content_array[idx as int],
                );
                assert(self@.content_array.take(idx + 1) =~= self@.content_array.take(
                    idx as int,
                ).push(self@.content_array[idx as int]));
            }
            idx = idx + 1;
        }
        assert(self@.content_array.take(idx as int) =~= self@.content_array);
        Ok(bytes)
    }

    /// Deserialize a message. Total: every byte sequence either decodes to a
    /// message or is answered with a decode error naming the first fault
    /// found, and nothing panics on malformed input.
    pub fn from_bytes(bytes: Vec<u8>) -> (r: Result<Message, &'static str>)
        ensures
            r matches Ok(m) ==> spec_decode(bytes@) == Some(m@),
            r is Err ==> spec_decode(bytes@) is None,
            bytes@.len() < 3 ==> (r matches Err(e) && e@ == "Message too short!"@),
            bytes@.len() >= 3 && spec_decode_title(bytes@[0]) is None ==> (r matches Err(e)
                && e@ == "Unknown title type!"@),
            bytes@.len() >= 3 && spec_decode_title(bytes@[0]) is Some && spec_decode_sub_title(
                bytes@[1],
            ) is None ==> (r matches Err(e) && e@ == "Unknown sub_title type!"@),
            bytes@.len() >= 3 && spec_decode_title(bytes@[0]) is Some && spec_decode_sub_title(
                bytes@[1],
            ) is Some && spec_decode_content_type(bytes@[2]) is None ==> (r matches Err(e)
                && e@ == "Unknown content_type type!"@),
            bytes@.len() >= 3 && spec_decode_title(bytes@[0]) is Some && spec_decode_sub_title(
                bytes@[1],
            ) is Some && spec_decode_content_type(bytes@[2]) == Some(ContentType::FileSize)
                && bytes@.len() < 11 ==> (r matches Err(e) && e@ == "Cant read file size!"@),
    {
        if bytes.len() < 3 {
            return Err("Message too short!");
        }
        let title = match bytes[0] {
            0 => Title::GetRequest,
            1 => Title::SendRequest,
            2 => Title::FileListRequest,
            3 => Title::RemoveRequest,
            _ => {
                return Err("Unknown title type!");
            },
        };
        let sub_title = match bytes[1] {
            0 => SubTitile::Success,
            1 => SubTitile::Failure,
            _ => {
                return Err("Unknown sub_title type!");
            },
        };
        let content_type = match bytes[2] {
            0 => ContentType::NoContent,
            1 => ContentType::ErrMessage,
            2 => ContentType::FileName,
            3 => ContentType::FileSize,
            4 => ContentType::FileData,
            _ => {
                return Err("Unknown content_type type!");
            },
        };
        let content_array: Vec<Content> = match content_type {
            ContentType::NoContent => Vec::new(),
            ContentType::ErrMessage => {
                let rest = vstd::slice::slice_to_vec(
                    vstd::slice::slice_subrange(bytes.as_slice(), 3, bytes.len()),
                );
                assert(rest@ =~= bytes@.skip(3));
                vec![Content::text_from_range_bytes(rest)]
            },
            ContentType::FileName => {
                let rest = vstd::slice::slice_to_vec(
                    vstd::slice::slice_subrange(bytes.as_slice(), 3, bytes.len()),
                );
                assert(rest@ =~= bytes@.skip(3));
                vec![Content::text_from_range_bytes(rest)]
            },
            ContentType::FileSize => {
                if bytes.len() < 11 {
                    return Err("Cant read file size!");
                }
                let field: [u8; 8] = [
                    bytes[3],
                    bytes[4],
                    bytes[5],
                    bytes[6],
                    bytes[7],
                    bytes[8],
                    bytes[9],
                    bytes[10],
                ];
                assert(field@ =~= bytes@.subrange(3, 11));
                vec![Content::number_from_bytes(field)]
            },
            ContentType::FileData => {
                let data = vstd::slice::slice_to_vec(
                    vstd::slice::slice_subrange(bytes.as_slice(), 3, bytes.len()),
                );
                assert(data@ =~= bytes@.skip(3));
                vec![Content::Binary(data)]
            },
        };
        let message = Message::new(title, sub_title, content_type, content_array);
        assert(spec_decode(bytes@) == Some(message@)) by {
            assert(message@.content_array =~= message.content_array@.map_values(
                |c: Content| c@,
            ));
            let d = spec_decode(bytes@);
            assert(d matches Some(mm) && mm.content_array =~= message@.content_array);
        }
        Ok(message)
    }
}

impl Content {
    /// Read a zero-terminated text field: the text is the prefix up to the
    /// first zero byte, or all of the input when no zero byte occurs.
    pub fn text_from_range_bytes(bytes: Vec<u8>) -> (c: Content)
        ensures
            c@ == ContentModel::Text(spec_take_until_zero(bytes@)),
    {
        let mut t: Vec<u8> = Vec::new();
        let mut i: usize = 0;
        while i < bytes.len() && bytes[i] != 0
            invariant
                0 <= i <= bytes@.len(),
                t@ == bytes@.subrange(0, i as int),
                forall|k: int| 0 <= k < i ==> bytes@[k] != 0,
            decreases bytes@.len() - i,
        {
            t.push(bytes[i]);
            assert(bytes@.subrange(0, i + 1) =~= bytes@.subrange(0, i as int).push(
                bytes@[i as int],
            ));
            i = i + 1;
        }
        proof {
            lemma_take_until_zero_is_prefix(bytes@, i as int);
        }
        Content::Text(t)
    }

    /// Read an unsigned 64-bit number from its fixed little-endian field.
    pub fn number_from_bytes(bytes: [u8; 8]) -> (c: Content)
        ensures
            c@ == ContentModel::Number(vstd::bytes::spec_u64_from_le_bytes(bytes@)),
    {
        Content::Number(vstd::bytes::u64_from_le_bytes(bytes.as_slice()))
    }
}

} // verus!

