use vstd::prelude::*;
use vstd::string::StringSliceAdditionalSpecFns;

use crate::utils::error::ConnectionError;

verus! {

/// The connection details of a Taurus server manager.
pub struct TaurusView {
    pub password: Seq<char>,
    pub address: Seq<char>,
}

/// A client of Taurus, which runs Minecraft servers and relays their chat
/// over a websocket.
pub struct Taurus {
    password: String,
    address: String,
}

impl View for Taurus {
    type V = TaurusView;

    closed spec fn view(&self) -> TaurusView {
        TaurusView { password: self.password@, address: self.address@ }
    }
}

/// The address of the local Taurus websocket.
pub open spec fn taurus_address() -> Seq<char> {
    "ws://127.0.0.1:7500"@
}

impl Taurus {
    /// A client of the Taurus instance on this machine, with an empty password.
    pub fn new() -> (res: Result<Taurus, ConnectionError>)
        ensures
            match res {
                Ok(t) => t@.password == Seq::<char>::empty() && t@.address == taurus_address(),
                Err(_) => false,
            },
    {
        let password = String::new();
        let address = "ws://127.0.0.1:7500";
        Ok(Taurus { password, address: address.to_owned() })
    }

    /// The websocket address to connect to.
    pub fn address(&self) -> (a: &str)
        ensures
            a@ == self@.address,
    {
        self.address.as_str()
    }

    /// The password that opens a session.
    pub fn password(&self) -> (p: &str)
        ensures
            p@ == self@.password,
    {
        self.password.as_str()
    }

    /// The text frames that pass `msg` on to the server: the password, then
    /// the message.
    pub fn message_frames(&self, msg: String) -> (frames: Vec<String>)
        ensures
            frames@.len() == 2,
            frames@[0]@ == self@.password,
            frames@[1]@ == msg@,
    {
        let mut frames: Vec<String> = Vec::new();
        frames.push(self.password.as_str().to_owned());
        frames.push(msg);
        frames
    }

    /// The text frames that subscribe to the server's chat: the password, then
    /// `PING`.
    pub fn subscribe_frames(&self) -> (frames: Vec<String>)
        ensures
            frames@.len() == 2,
            frames@[0]@ == self@.password,
            frames@[1]@ == "PING"@,
    {
        let mut frames: Vec<String> = Vec::new();
        frames.push(self.password.as_str().to_owned());
        frames.push("PING".to_owned());
        frames
    }
}

/// The bytes of `MSG`, the tag of a chat line.
pub open spec fn chat_tag() -> Seq<u8> {
    seq![0x4du8, 0x53u8, 0x47u8]
}

/// A frame whose first three bytes and, after a chat tag, whose text can be
/// cut out on character boundaries.
pub open spec fn chat_frame_readable(bytes: Seq<u8>) -> bool {
    &&& bytes.len() >= 3
    &&& vstd::utf8::is_char_boundary(bytes, 3)
    &&& bytes.subrange(0, 3) == chat_tag() ==> bytes.len() >= 4 && vstd::utf8::is_char_boundary(bytes, 4)
}

/// Reads a text frame from Taurus: a chat line is `MSG`, one separator
/// character and the text, which is returned; any other frame gives `None`.
pub fn parse_chat_frame(msg: &str) -> (text: Option<String>)
    requires
        chat_frame_readable(msg.spec_bytes()),
    ensures
        match text {
            Some(t) => msg.spec_bytes().subrange(0, 3) == chat_tag() && vstd::utf8::encode_utf8(t@)
                == msg.spec_bytes().subrange(4, msg.spec_bytes().len() as int),
            None => msg.spec_bytes().subrange(0, 3) != chat_tag(),
        },
{
    let (head, _) = msg.split_at(3);
    let tag = head.as_bytes();
    if tag[0] == 0x4d && tag[1] == 0x53 && tag[2] == 0x47 {
        assert(head.spec_bytes() =~= chat_tag());
        let (_, rest) = msg.split_at(4);
        Some(rest.to_owned())
    } else {
        assert(head.spec_bytes() != chat_tag()) by {
            if head.spec_bytes() == chat_tag() {
                assert(tag@[0] == 0x4d && tag@[1] == 0x53 && tag@[2] == 0x47);
            }
        }
        None
    }
}


/// The encoding of two strings one after the other is the encoding of the
/// first followed by that of the second.
proof fn lemma_encode_concat(a: Seq<char>, b: Seq<char>)
    ensures
        vstd::utf8::encode_utf8(a + b) == vstd::utf8::encode_utf8(a) + vstd::utf8::encode_utf8(b),
    decreases a.len(),
{
    if a.len() == 0 {
        assert(a + b =~= b);
        assert(vstd::utf8::encode_utf8(a) + vstd::utf8::encode_utf8(b) =~= vstd::utf8::encode_utf8(b));
    } else {
        assert((a + b).drop_first() =~= a.drop_first() + b);
        assert((a + b)[0] == a[0]);
        lemma_encode_concat(a.drop_first(), b);
        assert(vstd::utf8::encode_utf8(a + b) =~= vstd::utf8::encode_utf8(a) + vstd::utf8::encode_utf8(b));
    }
}

/// A chat line that Taurus relays, `MSG `followed by a text, can be read
/// without panicking, and what is read back is that text.
pub proof fn law_chat_line_roundtrip(msg: &str, text: Seq<char>)
    requires
        msg@ == "MSG "@ + text,
    ensures
        chat_frame_readable(msg.spec_bytes()),
        msg.spec_bytes().subrange(0, 3) == chat_tag(),
        forall|r: Seq<char>|
            vstd::utf8::encode_utf8(r) == msg.spec_bytes().subrange(
                4,
                msg.spec_bytes().len() as int,
            ) ==> r == text,
{
    broadcast use vstd::utf8::encode_utf8_valid_utf8, vstd::utf8::encode_utf8_decode_utf8;

    reveal_strlit("MSG ");
    let tag: Seq<char> = "MSG "@;
    assert(tag =~= seq!['M', 'S', 'G', ' ']);
    assert(((0x4du32 & 0x7f) as u8) == 0x4du8) by (bit_vector);
    assert(((0x53u32 & 0x7f) as u8) == 0x53u8) by (bit_vector);
    assert(((0x47u32 & 0x7f) as u8) == 0x47u8) by (bit_vector);
    assert(((0x20u32 & 0x7f) as u8) == 0x20u8) by (bit_vector);
    let t3 = tag.drop_first().drop_first().drop_first();
    assert(t3 =~= seq![' ']);
    assert(t3.drop_first() =~= Seq::<char>::empty());
    assert(vstd::utf8::encode_utf8(Seq::<char>::empty()) =~= Seq::<u8>::empty());
    assert(('M' as u32) == 0x4du32 && ('S' as u32) == 0x53u32 && ('G' as u32) == 0x47u32
        && (' ' as u32) == 0x20u32);
    assert(vstd::utf8::encode_scalar(0x4du32) =~= seq![0x4du8]);
    assert(vstd::utf8::encode_scalar(0x53u32) =~= seq![0x53u8]);
    assert(vstd::utf8::encode_scalar(0x47u32) =~= seq![0x47u8]);
    assert(vstd::utf8::encode_scalar(0x20u32) =~= seq![0x20u8]);
    assert(vstd::utf8::encode_utf8(t3) =~= seq![0x20u8]);
    assert(vstd::utf8::encode_utf8(tag.drop_first().drop_first()) =~= seq![0x47u8, 0x20u8]);
    assert(vstd::utf8::encode_utf8(tag.drop_first()) =~= seq![0x53u8, 0x47u8, 0x20u8]);
    assert(vstd::utf8::encode_utf8(tag) =~= seq![0x4du8, 0x53u8, 0x47u8, 0x20u8]);
    lemma_encode_concat(tag, text);
    let bytes = msg.spec_bytes();
    let rest = vstd::utf8::encode_utf8(text);
    assert(bytes == seq![0x4du8, 0x53u8, 0x47u8, 0x20u8] + rest);
    assert(bytes.subrange(0, 3) =~= chat_tag());
    assert(bytes.subrange(4, bytes.len() as int) =~= rest);
    assert(vstd::utf8::valid_utf8(bytes));
    vstd::utf8::is_char_boundary_iff_is_leading_byte(bytes, 3);
    if rest.len() == 0 {
        vstd::utf8::is_char_boundary_start_end_of_seq(bytes);
    } else {
        assert(text.len() > 0);
        vstd::utf8::encode_utf8_first_scalar(text);
        assert(bytes[4] == rest[0]);
        vstd::utf8::is_char_boundary_iff_is_leading_byte(bytes, 4);
    }
    assert forall|r: Seq<char>|
        vstd::utf8::encode_utf8(r) == bytes.subrange(4, bytes.len() as int) implies r == text by {
        assert(vstd::utf8::decode_utf8(vstd::utf8::encode_utf8(r)) == r);
        assert(vstd::utf8::decode_utf8(vstd::utf8::encode_utf8(text)) == text);
    }
}

} // verus!
