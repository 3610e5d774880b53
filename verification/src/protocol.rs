//! The line protocol: newline-terminated ASCII lines of blank-separated
//! words, from the clients to the server and back.
//!
//! Numbers with a fractional part travel as words that this module neither
//! reads nor writes: it carries them as the bytes they are.

use crate::text::{
    copy_bytes, decimal, decimal_text, encode_line, index_of, is_blank, is_number,
    is_number_text, is_word, lemma_decimal_round_trip, lemma_line_round_trip,
    lemma_number_is_word, lemma_words_are_words, line_of, parse_index, render_decimal, same_bytes, split_words, views,
    words,
};
use vstd::prelude::*;

verus! {

/// The word `ship`.
pub open spec fn word_ship() -> Seq<u8> {
    seq![115u8, 104u8, 105u8, 112u8]
}

/// The word `sail`.
pub open spec fn word_sail() -> Seq<u8> {
    seq![115u8, 97u8, 105u8, 108u8]
}

/// The word `anchor`.
pub open spec fn word_anchor() -> Seq<u8> {
    seq![97u8, 110u8, 99u8, 104u8, 111u8, 114u8]
}

/// The word `smoke`.
pub open spec fn word_smoke() -> Seq<u8> {
    seq![115u8, 109u8, 111u8, 107u8, 101u8]
}

/// The word `action`.
pub open spec fn word_action() -> Seq<u8> {
    seq![97u8, 99u8, 116u8, 105u8, 111u8, 110u8]
}

/// The word `sunk`.
pub open spec fn word_sunk() -> Seq<u8> {
    seq![115u8, 117u8, 110u8, 107u8]
}

/// The word `radius`.
pub open spec fn word_radius() -> Seq<u8> {
    seq![114u8, 97u8, 100u8, 105u8, 117u8, 115u8]
}

/// The word `splash`.
pub open spec fn word_splash() -> Seq<u8> {
    seq![115u8, 112u8, 108u8, 97u8, 115u8, 104u8]
}

/// The word `wake`.
pub open spec fn word_wake() -> Seq<u8> {
    seq![119u8, 97u8, 107u8, 101u8]
}

fn ship_word() -> (w: Vec<u8>)
    ensures
        w@ == word_ship(),
{
    let w = vec![115u8, 104u8, 105u8, 112u8];
    assert(w@ =~= word_ship());
    w
}

fn sail_word() -> (w: Vec<u8>)
    ensures
        w@ == word_sail(),
{
    let w = vec![115u8, 97u8, 105u8, 108u8];
    assert(w@ =~= word_sail());
    w
}

fn anchor_word() -> (w: Vec<u8>)
    ensures
        w@ == word_anchor(),
{
    let w = vec![97u8, 110u8, 99u8, 104u8, 111u8, 114u8];
    assert(w@ =~= word_anchor());
    w
}

fn smoke_word() -> (w: Vec<u8>)
    ensures
        w@ == word_smoke(),
{
    let w = vec![115u8, 109u8, 111u8, 107u8, 101u8];
    assert(w@ =~= word_smoke());
    w
}

fn action_word() -> (w: Vec<u8>)
    ensures
        w@ == word_action(),
{
    let w = vec![97u8, 99u8, 116u8, 105u8, 111u8, 110u8];
    assert(w@ =~= word_action());
    w
}

fn sunk_word() -> (w: Vec<u8>)
    ensures
        w@ == word_sunk(),
{
    let w = vec![115u8, 117u8, 110u8, 107u8];
    assert(w@ =~= word_sunk());
    w
}

fn radius_word() -> (w: Vec<u8>)
    ensures
        w@ == word_radius(),
{
    let w = vec![114u8, 97u8, 100u8, 105u8, 117u8, 115u8];
    assert(w@ =~= word_radius());
    w
}

fn splash_word() -> (w: Vec<u8>)
    ensures
        w@ == word_splash(),
{
    let w = vec![115u8, 112u8, 108u8, 97u8, 115u8, 104u8];
    assert(w@ =~= word_splash());
    w
}

fn wake_word() -> (w: Vec<u8>)
    ensures
        w@ == word_wake(),
{
    let w = vec![119u8, 97u8, 107u8, 101u8];
    assert(w@ =~= word_wake());
    w
}

/// What a client may ask of its ship.
#[derive(Debug)]
pub enum ClientMessage {
    /// Throttle, then helm: each the word that the client sent, which
    /// writes a number that may have a fractional part.
    Sail(Vec<u8>, Vec<u8>),
    Anchor,
    Smoke,
    /// The place of a special action in the ship's list, counted from one.
    Action(u32),
}

/// A `ClientMessage` with the contents of its words.
pub enum ClientMessageView {
    Sail(Seq<u8>, Seq<u8>),
    Anchor,
    Smoke,
    Action(u32),
}

impl View for ClientMessage {
    type V = ClientMessageView;

    open spec fn view(&self) -> ClientMessageView {
        match self {
            ClientMessage::Sail(power, helm) => ClientMessageView::Sail(power@, helm@),
            ClientMessage::Anchor => ClientMessageView::Anchor,
            ClientMessage::Smoke => ClientMessageView::Smoke,
            ClientMessage::Action(index) => ClientMessageView::Action(*index),
        }
    }
}

/// Why a line is not a message. None of these ends the connection.
#[derive(Clone, Copy, Debug, PartialEq, Eq, Structural)]
pub enum ProtocolError {
    /// The line holds no word.
    Empty,
    /// The first word names no message.
    Unknown,
    /// The first word names a message, and a field of it is missing or is
    /// not what the message takes.
    Malformed,
}

/// The name that a first line asks to join under: the word after `ship`.
pub open spec fn join_of(line: Seq<u8>) -> Option<Seq<u8>> {
    let w = words(line);
    if w.len() >= 2 && w[0] == word_ship() {
        Some(w[1])
    } else {
        None
    }
}

/// What a line asks for.
pub open spec fn command_of(line: Seq<u8>) -> Result<ClientMessageView, ProtocolError> {
    let w = words(line);
    if w.len() == 0 {
        Err(ProtocolError::Empty)
    } else if w[0] == word_sail() {
        if w.len() >= 3 && is_number(w[1]) && is_number(w[2]) {
            Ok(ClientMessageView::Sail(w[1], w[2]))
        } else {
            Err(ProtocolError::Malformed)
        }
    } else if w[0] == word_anchor() {
        Ok(ClientMessageView::Anchor)
    } else if w[0] == word_smoke() {
        Ok(ClientMessageView::Smoke)
    } else if w[0] == word_action() {
        if w.len() >= 2 && index_of(w[1]) is Some {
            Ok(ClientMessageView::Action(index_of(w[1])->0))
        } else {
            Err(ProtocolError::Malformed)
        }
    } else {
        Err(ProtocolError::Unknown)
    }
}

/// Reads the first line of a connection. Words after the name are ignored.
pub fn parse_join(line: &[u8]) -> (name: Option<Vec<u8>>)
    ensures
        name is Some == join_of(line@) is Some,
        name matches Some(n) ==> join_of(line@) == Some(n@) && is_word(n@),
{
    let w = split_words(line);
    proof {
        lemma_words_are_words(line@);
    }
    if w.len() >= 2 {
        assert(views(w@)[0] == w[0]@);
        assert(views(w@)[1] == w[1]@);
        if same_bytes(w[0].as_slice(), ship_word().as_slice()) {
            return Some(copy_bytes(w[1].as_slice()));
        }
    }
    None
}

/// Reads a line that a joined client sent. Words after the last field of a
/// message are ignored.
pub fn parse_command(line: &[u8]) -> (message: Result<ClientMessage, ProtocolError>)
    ensures
        match message {
            Ok(m) => command_of(line@) == Ok::<ClientMessageView, ProtocolError>(m@),
            Err(e) => command_of(line@) == Err::<ClientMessageView, ProtocolError>(e),
        },
        message matches Ok(ClientMessage::Sail(power, helm)) ==> is_word(power@) && is_word(helm@)
            && is_number(power@) && is_number(helm@),
{
    let w = split_words(line);
    proof {
        lemma_words_are_words(line@);
    }
    if w.len() == 0 {
        return Err(ProtocolError::Empty);
    }
    assert(views(w@)[0] == w[0]@);
    let first = w[0].as_slice();
    if same_bytes(first, sail_word().as_slice()) {
        if w.len() >= 3 {
            assert(views(w@)[1] == w[1]@);
            assert(views(w@)[2] == w[2]@);
            if is_number_text(w[1].as_slice()) && is_number_text(w[2].as_slice()) {
                Ok(ClientMessage::Sail(copy_bytes(w[1].as_slice()), copy_bytes(w[2].as_slice())))
            } else {
                Err(ProtocolError::Malformed)
            }
        } else {
            Err(ProtocolError::Malformed)
        }
    } else if same_bytes(first, anchor_word().as_slice()) {
        Ok(ClientMessage::Anchor)
    } else if same_bytes(first, smoke_word().as_slice()) {
        Ok(ClientMessage::Smoke)
    } else if same_bytes(first, action_word().as_slice()) {
        if w.len() >= 2 {
            assert(views(w@)[1] == w[1]@);
            match parse_index(w[1].as_slice()) {
                Some(index) => Ok(ClientMessage::Action(index)),
                None => Err(ProtocolError::Malformed),
            }
        } else {
            Err(ProtocolError::Malformed)
        }
    } else {
        Err(ProtocolError::Unknown)
    }
}

/// What the reader of a connection does with what it read.
#[derive(Debug)]
pub enum ReaderStep {
    /// Nothing was read: the stream has ended, and so does the reader.
    Closed,
    /// The line is a message, to be handed to the simulation.
    Forward(ClientMessage),
    /// The line is no message: it is noted and skipped, and the connection
    /// stays open.
    Skip(ProtocolError),
}

/// What the reader does with a line. An empty read, without even a line
/// feed, is the end of the stream.
pub fn reader_step(line: &[u8]) -> (step: ReaderStep)
    ensures
        line@.len() == 0 <==> step is Closed,
        match step {
            ReaderStep::Closed => true,
            ReaderStep::Forward(m) => command_of(line@) == Ok::<ClientMessageView, ProtocolError>(
                m@,
            ),
            ReaderStep::Skip(e) => command_of(line@) == Err::<ClientMessageView, ProtocolError>(e),
        },
{
    if line.len() == 0 {
        ReaderStep::Closed
    } else {
        match parse_command(line) {
            Ok(message) => ReaderStep::Forward(message),
            Err(error) => ReaderStep::Skip(error),
        }
    }
}

/// A colour as the wire writes it: a number sign, then the hexadecimal digits.
pub open spec fn colour_field(colour: Seq<u8>) -> Seq<u8> {
    seq![35u8] + colour
}

/// The fields of the line that announces the map border.
pub open spec fn radius_fields(radius: Seq<u8>) -> Seq<Seq<u8>> {
    seq![word_radius(), radius]
}

/// The fields of the line that tells that a ship or the boss is gone.
pub open spec fn sunk_fields(name: Seq<u8>) -> Seq<Seq<u8>> {
    seq![word_sunk(), name]
}

/// The fields of the line that tells a ship's state.
pub open spec fn ship_fields(
    name: Seq<u8>,
    x: Seq<u8>,
    y: Seq<u8>,
    angle: Seq<u8>,
    velocity: Seq<u8>,
    length: Seq<u8>,
    texture: nat,
    colour: Seq<u8>,
    health: Seq<u8>,
) -> Seq<Seq<u8>> {
    seq![
        word_ship(),
        name,
        x,
        y,
        angle,
        velocity,
        length,
        decimal_text(texture),
        colour_field(colour),
        health,
    ]
}

/// The fields of the line that tells of a shell or a mine going off.
pub open spec fn splash_fields(
    x: Seq<u8>,
    y: Seq<u8>,
    size: Seq<u8>,
    duration: Seq<u8>,
    sprite: nat,
    colour: Seq<u8>,
) -> Seq<Seq<u8>> {
    seq![word_splash(), x, y, size, duration, decimal_text(sprite), colour_field(colour)]
}

/// The fields of the line that tells of a ship's wake.
pub open spec fn wake_fields(
    x: Seq<u8>,
    y: Seq<u8>,
    size: Seq<u8>,
    angle: Seq<u8>,
    duration: Seq<u8>,
    growth: Seq<u8>,
) -> Seq<Seq<u8>> {
    seq![word_wake(), x, y, size, angle, duration, growth]
}

fn colour_word(colour: &[u8]) -> (w: Vec<u8>)
    ensures
        w@ == colour_field(colour@),
{
    let mut w: Vec<u8> = Vec::new();
    w.push(35);
    let mut digits = copy_bytes(colour);
    w.append(&mut digits);
    assert(w@ =~= colour_field(colour@));
    w
}

/// `radius <r>`: sent to a client once, when it joins a map that has a border.
pub fn radius_message(radius: &[u8]) -> (line: Vec<u8>)
    ensures
        line@ == line_of(radius_fields(radius@)),
{
    let mut fields: Vec<Vec<u8>> = Vec::new();
    fields.push(radius_word());
    fields.push(copy_bytes(radius));
    assert(views(fields@) =~= radius_fields(radius@));
    encode_line(&fields)
}

/// `sunk <name>`: the ship or boss of that name is gone from view.
pub fn sunk_message(name: &[u8]) -> (line: Vec<u8>)
    ensures
        line@ == line_of(sunk_fields(name@)),
{
    let mut fields: Vec<Vec<u8>> = Vec::new();
    fields.push(sunk_word());
    fields.push(copy_bytes(name));
    assert(views(fields@) =~= sunk_fields(name@));
    encode_line(&fields)
}

/// `ship <name> <x> <y> <angle> <velocity> <length> <texture> #<colour> <health>`:
/// the state of one ship after a tick.
pub fn ship_message(
    name: &[u8],
    x: &[u8],
    y: &[u8],
    angle: &[u8],
    velocity: &[u8],
    length: &[u8],
    texture: usize,
    colour: &[u8],
    health: &[u8],
) -> (line: Vec<u8>)
    ensures
        line@ == line_of(
            ship_fields(name@, x@, y@, angle@, velocity@, length@, texture as nat, colour@, health@),
        ),
{
    let mut fields: Vec<Vec<u8>> = Vec::new();
    fields.push(ship_word());
    fields.push(copy_bytes(name));
    fields.push(copy_bytes(x));
    fields.push(copy_bytes(y));
    fields.push(copy_bytes(angle));
    fields.push(copy_bytes(velocity));
    fields.push(copy_bytes(length));
    fields.push(render_decimal(texture));
    fields.push(colour_word(colour));
    fields.push(copy_bytes(health));
    assert(views(fields@) =~= ship_fields(
        name@,
        x@,
        y@,
        angle@,
        velocity@,
        length@,
        texture as nat,
        colour@,
        health@,
    ));
    encode_line(&fields)
}

/// `splash <x> <y> <size> <duration> <sprite> #<colour>`: a shell or a mine
/// went off.
pub fn splash_message(
    x: &[u8],
    y: &[u8],
    size: &[u8],
    duration: &[u8],
    sprite: usize,
    colour: &[u8],
) -> (line: Vec<u8>)
    ensures
        line@ == line_of(splash_fields(x@, y@, size@, duration@, sprite as nat, colour@)),
{
    let mut fields: Vec<Vec<u8>> = Vec::new();
    fields.push(splash_word());
    fields.push(copy_bytes(x));
    fields.push(copy_bytes(y));
    fields.push(copy_bytes(size));
    fields.push(copy_bytes(duration));
    fields.push(render_decimal(sprite));
    fields.push(colour_word(colour));
    assert(views(fields@) =~= splash_fields(x@, y@, size@, duration@, sprite as nat, colour@));
    encode_line(&fields)
}

/// `wake <x> <y> <size> <angle> <duration> <growth>`: a ship left a wake.
pub fn wake_message(
    x: &[u8],
    y: &[u8],
    size: &[u8],
    angle: &[u8],
    duration: &[u8],
    growth: &[u8],
) -> (line: Vec<u8>)
    ensures
        line@ == line_of(wake_fields(x@, y@, size@, angle@, duration@, growth@)),
{
    let mut fields: Vec<Vec<u8>> = Vec::new();
    fields.push(wake_word());
    fields.push(copy_bytes(x));
    fields.push(copy_bytes(y));
    fields.push(copy_bytes(size));
    fields.push(copy_bytes(angle));
    fields.push(copy_bytes(duration));
    fields.push(copy_bytes(growth));
    assert(views(fields@) =~= wake_fields(x@, y@, size@, angle@, duration@, growth@));
    encode_line(&fields)
}

/// A line of `sunk` and a name reads back as those two words, and a line of
/// `ship` and a name is read as a request to join under that name.
pub proof fn lemma_name_lines(name: Seq<u8>)
    requires
        is_word(name),
    ensures
        words(line_of(sunk_fields(name))) == sunk_fields(name),
        join_of(line_of(seq![word_ship(), name])) == Some(name),
{
    assert(is_word(word_sunk()));
    assert(is_word(word_ship()));
    lemma_line_round_trip(sunk_fields(name));
    lemma_line_round_trip(seq![word_ship(), name]);
}

/// The kinds of line that the server sends.
#[derive(Clone, Copy, Debug, PartialEq, Eq, Structural)]
pub enum ServerKind {
    Radius,
    Ship,
    Sunk,
    Splash,
    Wake,
}

impl ServerKind {
    /// The word that a line of this kind starts with.
    pub open spec fn keyword(self) -> Seq<u8> {
        match self {
            ServerKind::Radius => word_radius(),
            ServerKind::Ship => word_ship(),
            ServerKind::Sunk => word_sunk(),
            ServerKind::Splash => word_splash(),
            ServerKind::Wake => word_wake(),
        }
    }

    /// The number of fields that follow the first word.
    pub open spec fn arity(self) -> nat {
        match self {
            ServerKind::Radius => 1,
            ServerKind::Ship => 9,
            ServerKind::Sunk => 1,
            ServerKind::Splash => 6,
            ServerKind::Wake => 6,
        }
    }

    /// The kind whose lines start with this word.
    pub open spec fn of(word: Seq<u8>) -> Option<ServerKind> {
        if word == word_radius() {
            Some(ServerKind::Radius)
        } else if word == word_ship() {
            Some(ServerKind::Ship)
        } else if word == word_sunk() {
            Some(ServerKind::Sunk)
        } else if word == word_splash() {
            Some(ServerKind::Splash)
        } else if word == word_wake() {
            Some(ServerKind::Wake)
        } else {
            None
        }
    }

    pub fn field_count(self) -> (n: usize)
        ensures
            n == self.arity(),
    {
        match self {
            ServerKind::Radius => 1,
            ServerKind::Ship => 9,
            ServerKind::Sunk => 1,
            ServerKind::Splash => 6,
            ServerKind::Wake => 6,
        }
    }

    /// The kind whose lines start with this word.
    pub fn from_word(word: &[u8]) -> (kind: Option<ServerKind>)
        ensures
            kind == ServerKind::of(word@),
    {
        if same_bytes(word, radius_word().as_slice()) {
            Some(ServerKind::Radius)
        } else if same_bytes(word, ship_word().as_slice()) {
            Some(ServerKind::Ship)
        } else if same_bytes(word, sunk_word().as_slice()) {
            Some(ServerKind::Sunk)
        } else if same_bytes(word, splash_word().as_slice()) {
            Some(ServerKind::Splash)
        } else if same_bytes(word, wake_word().as_slice()) {
            Some(ServerKind::Wake)
        } else {
            None
        }
    }
}

/// A line of the server, taken apart: its kind, and the fields of that kind
/// as the words that the line held.
#[derive(Debug)]
pub struct ServerMessage {
    pub kind: ServerKind,
    pub fields: Vec<Vec<u8>>,
}

/// What a line of the server says: its kind and that kind's fields. Words
/// after the last field are ignored.
pub open spec fn server_message_of(line: Seq<u8>) -> Result<(ServerKind, Seq<Seq<u8>>), ProtocolError> {
    let w = words(line);
    if w.len() == 0 {
        Err(ProtocolError::Empty)
    } else {
        match ServerKind::of(w[0]) {
            None => Err(ProtocolError::Unknown),
            Some(kind) => if w.len() > kind.arity() {
                Ok((kind, w.subrange(1, kind.arity() as int + 1)))
            } else {
                Err(ProtocolError::Malformed)
            },
        }
    }
}

/// Reads a line that the server sent.
pub fn parse_server_line(line: &[u8]) -> (message: Result<ServerMessage, ProtocolError>)
    ensures
        match message {
            Ok(m) => server_message_of(line@) == Ok::<(ServerKind, Seq<Seq<u8>>), ProtocolError>(
                (m.kind, views(m.fields@)),
            ),
            Err(e) => server_message_of(line@) == Err::<(ServerKind, Seq<Seq<u8>>), ProtocolError>(
                e,
            ),
        },
{
    let mut w = split_words(line);
    let ghost all = views(w@);
    if w.len() == 0 {
        return Err(ProtocolError::Empty);
    }
    assert(all[0] == w[0]@);
    match ServerKind::from_word(w[0].as_slice()) {
        None => Err(ProtocolError::Unknown),
        Some(kind) => {
            let n = kind.field_count();
            if w.len() > n {
                let _first = w.remove(0);
                w.truncate(n);
                assert(views(w@) =~= all.subrange(1, n + 1));
                Ok(ServerMessage { kind, fields: w })
            } else {
                Err(ProtocolError::Malformed)
            }
        },
    }
}

/// A line made of a kind's first word and as many fields as the kind takes
/// is read as that kind with those fields, where each field can stand as a
/// word.
pub proof fn lemma_server_round_trip(kind: ServerKind, fields: Seq<Seq<u8>>)
    requires
        fields.len() == kind.arity(),
        forall|i: int| 0 <= i < fields.len() ==> is_word(#[trigger] fields[i]),
    ensures
        server_message_of(line_of(seq![kind.keyword()] + fields)) == Ok::<
            (ServerKind, Seq<Seq<u8>>),
            ProtocolError,
        >((kind, fields)),
{
    let all = seq![kind.keyword()] + fields;
    lemma_keywords(kind);
    assert forall|i: int| 0 <= i < all.len() implies is_word(#[trigger] all[i]) by {
        if i > 0 {
            assert(all[i] == fields[i - 1]);
        }
    }
    lemma_line_round_trip(all);
    assert(all[0] == kind.keyword());
    assert(all.subrange(1, kind.arity() as int + 1) =~= fields);
}

/// The first word of each kind is a word, and names that kind and no other.
pub proof fn lemma_keywords(kind: ServerKind)
    ensures
        is_word(kind.keyword()),
        ServerKind::of(kind.keyword()) == Some(kind),
{
    assert(word_radius()[0] == 114 && word_ship()[0] == 115 && word_wake()[0] == 119);
    assert(word_ship()[1] == 104 && word_sunk()[1] == 117 && word_splash()[1] == 112);
    assert(word_sunk()[0] == 115 && word_splash()[0] == 115);
}

/// A ship's state line reads back as a line of kind `Ship` whose fields are
/// the name and every number as they were written, the colour behind its
/// number sign, and the texture as digits that write the same number: where
/// each field given as text can stand as a word and the colour holds no
/// blank.
pub proof fn lemma_ship_line_round_trip(
    name: Seq<u8>,
    x: Seq<u8>,
    y: Seq<u8>,
    angle: Seq<u8>,
    velocity: Seq<u8>,
    length: Seq<u8>,
    texture: nat,
    colour: Seq<u8>,
    health: Seq<u8>,
)
    requires
        is_word(name),
        is_word(x),
        is_word(y),
        is_word(angle),
        is_word(velocity),
        is_word(length),
        forall|i: int| 0 <= i < colour.len() ==> !is_blank(#[trigger] colour[i]),
        is_word(health),
    ensures
        server_message_of(
            line_of(ship_fields(name, x, y, angle, velocity, length, texture, colour, health)),
        ) == Ok::<(ServerKind, Seq<Seq<u8>>), ProtocolError>(
            (
                ServerKind::Ship,
                seq![
                    name,
                    x,
                    y,
                    angle,
                    velocity,
                    length,
                    decimal_text(texture),
                    colour_field(colour),
                    health,
                ],
            ),
        ),
        decimal(decimal_text(texture)) == texture,
        texture <= u32::MAX ==> index_of(decimal_text(texture)) == Some(texture as u32),
{
    let fields = seq![
        name,
        x,
        y,
        angle,
        velocity,
        length,
        decimal_text(texture),
        colour_field(colour),
        health,
    ];
    lemma_decimal_round_trip(texture);
    assert(is_word(colour_field(colour))) by {
        let c = colour_field(colour);
        assert forall|i: int| 0 <= i < c.len() implies !is_blank(#[trigger] c[i]) by {
            if i > 0 {
                assert(c[i] == colour[i - 1]);
            }
        }
    }
    lemma_server_round_trip(ServerKind::Ship, fields);
    assert(seq![ServerKind::Ship.keyword()] + fields =~= ship_fields(
        name,
        x,
        y,
        angle,
        velocity,
        length,
        texture,
        colour,
        health,
    ));
}

/// A line of `sail` and two words that write numbers is read as those two
/// numbers, a line of `anchor` or `smoke` alone as that message, and a line
/// of `action` and an index written in decimal as that index.
pub proof fn lemma_command_lines(power: Seq<u8>, helm: Seq<u8>, index: u32)
    requires
        is_number(power),
        is_number(helm),
    ensures
        command_of(line_of(seq![word_sail(), power, helm])) == Ok::<
            ClientMessageView,
            ProtocolError,
        >(ClientMessageView::Sail(power, helm)),
        command_of(line_of(seq![word_anchor()])) == Ok::<ClientMessageView, ProtocolError>(
            ClientMessageView::Anchor,
        ),
        command_of(line_of(seq![word_smoke()])) == Ok::<ClientMessageView, ProtocolError>(
            ClientMessageView::Smoke,
        ),
        command_of(line_of(seq![word_action(), decimal_text(index as nat)])) == Ok::<
            ClientMessageView,
            ProtocolError,
        >(ClientMessageView::Action(index)),
{
    assert(is_word(word_sail()) && is_word(word_anchor()) && is_word(word_smoke()) && is_word(
        word_action(),
    ));
    assert(word_sail()[1] == 97 && word_smoke()[1] == 109);
    assert(word_anchor()[1] == 110 && word_action()[1] == 99);
    assert(word_sail()[0] == 115 && word_anchor()[0] == 97);
    lemma_number_is_word(power);
    lemma_number_is_word(helm);
    lemma_decimal_round_trip(index as nat);
    lemma_line_round_trip(seq![word_sail(), power, helm]);
    lemma_line_round_trip(seq![word_anchor()]);
    lemma_line_round_trip(seq![word_smoke()]);
    lemma_line_round_trip(seq![word_action(), decimal_text(index as nat)]);
}

} // verus!
