use crate::data_frame::{
    create_binary_frame_with_data_length, create_pong_frame, create_text_frame_with_data_length,
    header_bytes, mask_unmask_data, masked, DataFrameInfo, FrameView, Opcode, ReadFrom,
};
use crate::directory::{
    directory_after, directory_get, lemma_deleted_key_is_absent, lemma_set_key_is_found,
    Directory, DirectoryCommand, DirectoryCommandView,
};
use crate::outside::{json_text, json_text_field};
use crate::registry::Registry;
use crate::text::copy_range;
use vstd::prelude::*;

verus! {

/// How many blocks a session's inbound channel holds at most.
pub const INBOUND_CHANNEL_CAPACITY: usize = 100;

/// Why a session ends on a frame that breaks the protocol.
#[derive(Copy, Clone, Debug, PartialEq, Eq, Structural)]
pub enum SessionError {
    /// The frame's opcode is one that the server does not serve.
    UnsupportedOpcode,
    /// A data frame from the client is not masked.
    UnmaskedFrame,
}

/// Why the blocks of a frame go nowhere.
#[derive(Copy, Clone, Debug, PartialEq, Eq, Structural)]
pub enum DropReason {
    /// The payload names no recipient.
    NoRecipient,
    /// The recipient is not on this node, and there is no other.
    UnknownRecipient,
}

/// The byte blocks of a list of blocks.
pub open spec fn blocks_of(blocks: Seq<Vec<u8>>) -> Seq<Seq<u8>> {
    Seq::new(blocks.len(), |i: int| blocks[i]@)
}

/// What a frame asks of the session, before anything is routed.
#[derive(Debug)]
pub enum FrameAction {
    /// Send these two blocks: a header, then the payload.
    Respond(Vec<Vec<u8>>),
    /// The client closes the connection.
    Close,
    /// The frame breaks the protocol.
    Fail(SessionError),
}

pub enum FrameActionView {
    Respond(Seq<Seq<u8>>),
    Close,
    Fail(SessionError),
}

impl View for FrameAction {
    type V = FrameActionView;

    open spec fn view(&self) -> FrameActionView {
        match self {
            FrameAction::Respond(blocks) => FrameActionView::Respond(blocks_of(blocks@)),
            FrameAction::Close => FrameActionView::Close,
            FrameAction::Fail(e) => FrameActionView::Fail(*e),
        }
    }
}

/// The payload of a frame as it is passed on: unmasked where the frame came
/// from the client, as it is where it came from a peer.
pub open spec fn passed_payload(frame: FrameView) -> Seq<u8> {
    match frame.read_from {
        ReadFrom::Socket => masked(frame.payload_data, frame.mask_key),
        ReadFrom::Channel => frame.payload_data,
    }
}

/// The two blocks that pass a data frame on. For a frame from the client: a
/// fresh server header with the given first byte, then the unmasked payload.
/// For a frame from a peer: the header and the payload as they came.
pub open spec fn data_blocks(frame: FrameView, first_byte: u8) -> Seq<Seq<u8>> {
    match frame.read_from {
        ReadFrom::Socket => seq![
            header_bytes(first_byte, frame.payload_data.len(), 0),
            passed_payload(frame),
        ],
        ReadFrom::Channel => seq![frame.raw_bytes, passed_payload(frame)],
    }
}

/// The two blocks that answer a Ping: the header of a Pong, then the Ping's
/// payload unmasked.
pub open spec fn pong_blocks(frame: FrameView) -> Seq<Seq<u8>> {
    seq![
        header_bytes(0x8a, frame.payload_data.len(), 0),
        masked(frame.payload_data, frame.mask_key),
    ]
}

/// A copy of the frame's payload with the frame's masking key applied.
fn unmasked_payload(data_frame: &DataFrameInfo) -> (payload: Vec<u8>)
    ensures
        payload@ == masked(data_frame@.payload_data, data_frame@.mask_key),
{
    let mut payload = copy_range(
        data_frame.payload_data.as_slice(),
        0,
        data_frame.payload_data.len(),
    );
    assert(payload@ =~= data_frame@.payload_data);
    mask_unmask_data(payload.as_mut_slice(), &data_frame.mask_key);
    payload
}

/// The blocks that pass a data frame on: `fresh_header` and the unmasked
/// payload for a frame from the client, the header and the payload as they
/// came for a frame from a peer.
fn pass_on(data_frame: &DataFrameInfo, fresh_header: Vec<u8>) -> (blocks: Vec<Vec<u8>>)
    ensures
        blocks@.len() == 2,
        data_frame@.read_from == ReadFrom::Socket ==> blocks_of(blocks@) == seq![
            fresh_header@,
            passed_payload(data_frame@),
        ],
        data_frame@.read_from == ReadFrom::Channel ==> blocks_of(blocks@) == seq![
            data_frame@.raw_bytes,
            passed_payload(data_frame@),
        ],
{
    let mut vec_to_send: Vec<Vec<u8>> = Vec::new();
    match data_frame.read_from {
        ReadFrom::Socket => {
            let data = unmasked_payload(data_frame);
            vec_to_send.push(fresh_header);
            vec_to_send.push(data);
            assert(blocks_of(vec_to_send@) =~= seq![fresh_header@, passed_payload(data_frame@)]);
        },
        ReadFrom::Channel => {
            let header = copy_range(
                data_frame.raw_bytes.as_slice(),
                0,
                data_frame.raw_bytes.len(),
            );
            let data = copy_range(
                data_frame.payload_data.as_slice(),
                0,
                data_frame.payload_data.len(),
            );
            assert(header@ =~= data_frame@.raw_bytes);
            assert(data@ =~= data_frame@.payload_data);
            vec_to_send.push(header);
            vec_to_send.push(data);
            assert(blocks_of(vec_to_send@) =~= seq![
                data_frame@.raw_bytes,
                passed_payload(data_frame@),
            ]);
        },
    }
    vec_to_send
}

pub fn process_text_frame(data_frame: &DataFrameInfo) -> (vec_to_send: Vec<Vec<u8>>)
    ensures
        blocks_of(vec_to_send@) == data_blocks(data_frame@, 0x81),
{
    pass_on(data_frame, create_text_frame_with_data_length(data_frame.payload_data.len()))
}

pub fn process_binary_frame(data_frame: &DataFrameInfo) -> (vec_to_send: Vec<Vec<u8>>)
    ensures
        blocks_of(vec_to_send@) == data_blocks(data_frame@, 0x82),
{
    pass_on(data_frame, create_binary_frame_with_data_length(data_frame.payload_data.len()))
}

pub fn process_ping_frame(data_frame: &DataFrameInfo) -> (vec_to_send: Vec<Vec<u8>>)
    ensures
        blocks_of(vec_to_send@) == pong_blocks(data_frame@),
{
    let mut vec_to_send: Vec<Vec<u8>> = Vec::new();
    let ping_data = unmasked_payload(data_frame);
    let header = create_pong_frame(ping_data.len());
    vec_to_send.push(header);
    vec_to_send.push(ping_data);
    assert(blocks_of(vec_to_send@) =~= pong_blocks(data_frame@));
    vec_to_send
}

/// Whether a frame is a data frame that the client sent without a mask.
pub open spec fn unmasked_from_client(frame: FrameView) -> bool {
    frame.read_from == ReadFrom::Socket && !frame.contain_masked_data
}

/// What a frame asks of the session, by its opcode.
pub open spec fn frame_action(frame: FrameView) -> FrameActionView {
    match frame.opcode {
        Opcode::TextFrame => if unmasked_from_client(frame) {
            FrameActionView::Fail(SessionError::UnmaskedFrame)
        } else {
            FrameActionView::Respond(data_blocks(frame, 0x81))
        },
        Opcode::BinaryFrame => if unmasked_from_client(frame) {
            FrameActionView::Fail(SessionError::UnmaskedFrame)
        } else {
            FrameActionView::Respond(data_blocks(frame, 0x82))
        },
        Opcode::Ping => FrameActionView::Respond(pong_blocks(frame)),
        Opcode::ConnectionClose => FrameActionView::Close,
        Opcode::Pong | Opcode::ContinuationFrame | Opcode::NoOpcodeFound => FrameActionView::Fail(
            SessionError::UnsupportedOpcode,
        ),
    }
}

/// Dispatches a frame by its opcode.
pub fn process_frame(data_frame: &DataFrameInfo) -> (action: FrameAction)
    ensures
        action@ == frame_action(data_frame@),
{
    let unmasked_from_client = match data_frame.read_from {
        ReadFrom::Socket => !data_frame.contain_masked_data,
        ReadFrom::Channel => false,
    };
    match data_frame.opcode {
        Opcode::TextFrame => {
            if unmasked_from_client {
                FrameAction::Fail(SessionError::UnmaskedFrame)
            } else {
                FrameAction::Respond(process_text_frame(data_frame))
            }
        },
        Opcode::Ping => FrameAction::Respond(process_ping_frame(data_frame)),
        Opcode::BinaryFrame => {
            if unmasked_from_client {
                FrameAction::Fail(SessionError::UnmaskedFrame)
            } else {
                FrameAction::Respond(process_binary_frame(data_frame))
            }
        },
        Opcode::ConnectionClose => FrameAction::Close,
        _ => FrameAction::Fail(SessionError::UnsupportedOpcode),
    }
}

/// Where the blocks of a frame go.
#[derive(Debug)]
pub enum Delivery {
    /// To the socket of the session that read the frame.
    ThisClient,
    /// Into the inbound channel of the named user's session on this node.
    LocalSession(String),
    /// To the node that the directory names as the owner of the named user.
    AskDirectory(String),
    /// Nowhere.
    Dropped(DropReason),
}

pub enum DeliveryView {
    ThisClient,
    LocalSession(Seq<char>),
    AskDirectory(Seq<char>),
    Dropped(DropReason),
}

impl View for Delivery {
    type V = DeliveryView;

    open spec fn view(&self) -> DeliveryView {
        match self {
            Delivery::ThisClient => DeliveryView::ThisClient,
            Delivery::LocalSession(user) => DeliveryView::LocalSession(user@),
            Delivery::AskDirectory(user) => DeliveryView::AskDirectory(user@),
            Delivery::Dropped(reason) => DeliveryView::Dropped(*reason),
        }
    }
}

/// The text of an optional string.
pub open spec fn text_view(text: Option<String>) -> Option<Seq<char>> {
    match text {
        Some(t) => Some(t@),
        None => None,
    }
}

/// Where the response to a frame goes. The answer to a Ping goes back to
/// the client. A data frame that names no recipient is dropped. One that a
/// peer forwarded has arrived, and goes to the client. One from the client
/// goes to the recipient's session on this node if there is one, else to the
/// directory if the node is part of a cluster, else nowhere.
pub open spec fn delivery_for(
    read_from: ReadFrom,
    opcode: Opcode,
    recipient: Option<Seq<char>>,
    local_users: Set<Seq<char>>,
    clustered: bool,
) -> DeliveryView {
    if opcode == Opcode::Ping {
        DeliveryView::ThisClient
    } else {
        match recipient {
            None => DeliveryView::Dropped(DropReason::NoRecipient),
            Some(user) => if read_from == ReadFrom::Channel {
                DeliveryView::ThisClient
            } else if local_users.contains(user) {
                DeliveryView::LocalSession(user)
            } else if clustered {
                DeliveryView::AskDirectory(user)
            } else {
                DeliveryView::Dropped(DropReason::UnknownRecipient)
            },
        }
    }
}

/// Decides where the response to a frame goes, given the recipient that the
/// frame's payload names.
pub fn send_response_frame<T>(
    data_frame: &DataFrameInfo,
    recipient: Option<String>,
    registry: &Registry<T>,
    clustered: bool,
) -> (delivery: Delivery)
    requires
        registry.wf(),
    ensures
        delivery@ == delivery_for(
            data_frame@.read_from,
            data_frame@.opcode,
            text_view(recipient),
            registry@.dom(),
            clustered,
        ),
{
    match data_frame.opcode {
        Opcode::Ping => {
            return Delivery::ThisClient;
        },
        _ => {},
    }
    let user = match recipient {
        None => {
            return Delivery::Dropped(DropReason::NoRecipient);
        },
        Some(user) => user,
    };
    match data_frame.read_from {
        ReadFrom::Channel => Delivery::ThisClient,
        ReadFrom::Socket => {
            if registry.contains(&user) {
                Delivery::LocalSession(user)
            } else {
                send_dataframe_to_other_service(user, clustered)
            }
        },
    }
}

/// Decides what becomes of a frame for a user who is not on this node: the
/// directory is asked where the node is part of a cluster, and the frame is
/// dropped where it is not.
pub fn send_dataframe_to_other_service(recipient: String, clustered: bool) -> (delivery: Delivery)
    ensures
        delivery@ == (if clustered {
            DeliveryView::AskDirectory(recipient@)
        } else {
            DeliveryView::Dropped(DropReason::UnknownRecipient)
        }),
{
    if clustered {
        Delivery::AskDirectory(recipient)
    } else {
        Delivery::Dropped(DropReason::UnknownRecipient)
    }
}

/// What the session does with a frame.
#[derive(Debug)]
pub enum Step {
    /// Send the two blocks where `delivery` says.
    Deliver { blocks: Vec<Vec<u8>>, delivery: Delivery },
    /// Leave the loop: the client closed the connection.
    Close,
    /// Leave the loop: the frame breaks the protocol.
    Fail(SessionError),
}

pub enum StepView {
    Deliver { blocks: Seq<Seq<u8>>, delivery: DeliveryView },
    Close,
    Fail(SessionError),
}

impl View for Step {
    type V = StepView;

    open spec fn view(&self) -> StepView {
        match self {
            Step::Deliver { blocks, delivery } => StepView::Deliver {
                blocks: blocks_of(blocks@),
                delivery: delivery@,
            },
            Step::Close => StepView::Close,
            Step::Fail(e) => StepView::Fail(*e),
        }
    }
}

/// The name of the payload field that holds the recipient's user id.
pub open spec fn recipient_key() -> Seq<char> {
    "sender_user_id"@
}

/// What the session does with a frame, given the recipient that the passed
/// payload names.
pub open spec fn step_for(
    frame: FrameView,
    recipient: Option<Seq<char>>,
    local_users: Set<Seq<char>>,
    clustered: bool,
) -> StepView {
    match frame_action(frame) {
        FrameActionView::Close => StepView::Close,
        FrameActionView::Fail(e) => StepView::Fail(e),
        FrameActionView::Respond(blocks) => StepView::Deliver {
            blocks: blocks,
            delivery: delivery_for(
                frame.read_from,
                frame.opcode,
                recipient,
                local_users,
                clustered,
            ),
        },
    }
}

/// The recipient that a list of two blocks names in its payload block.
pub open spec fn named_recipient(blocks: Seq<Seq<u8>>) -> Option<Seq<char>> {
    json_text_field(blocks[1], recipient_key())
}

/// The recipient that the passed payload of a frame names, if the frame is
/// one that is passed on.
pub open spec fn frame_recipient(frame: FrameView) -> Option<Seq<char>> {
    match frame_action(frame) {
        FrameActionView::Respond(blocks) => named_recipient(blocks),
        _ => None,
    }
}

/// Reads the recipient's user id out of a payload.
pub fn recipient_of(payload: &[u8]) -> (recipient: Option<String>)
    ensures
        text_view(recipient) == json_text_field(payload@, recipient_key()),
{
    json_text(payload, "sender_user_id")
}

/// Decides what the session does with a frame that it read.
pub fn session_step<T>(data_frame: &DataFrameInfo, registry: &Registry<T>, clustered: bool) -> (step:
    Step)
    requires
        registry.wf(),
    ensures
        step@ == step_for(data_frame@, frame_recipient(data_frame@), registry@.dom(), clustered),
{
    match process_frame(data_frame) {
        FrameAction::Close => Step::Close,
        FrameAction::Fail(e) => Step::Fail(e),
        FrameAction::Respond(blocks) => {
            assert(blocks@.len() == 2) by {
                assert(blocks_of(blocks@).len() == 2);
            }
            assert(blocks_of(blocks@)[1] == blocks@[1]@);
            let recipient = match data_frame.opcode {
                Opcode::Ping => None,
                _ => recipient_of(blocks[1].as_slice()),
            };
            let delivery = send_response_frame(data_frame, recipient, registry, clustered);
            Step::Deliver { blocks, delivery }
        },
    }
}

/// What a node does with a frame that a peer sent it.
#[derive(Debug)]
pub enum PeerAction {
    /// Push the two blocks into the inbound channel of the named user's
    /// session.
    Enqueue { recipient: String, blocks: Vec<Vec<u8>> },
    /// Drop the frame.
    Dropped(DropReason),
}

pub enum PeerActionView {
    Enqueue { recipient: Seq<char>, blocks: Seq<Seq<u8>> },
    Dropped(DropReason),
}

impl View for PeerAction {
    type V = PeerActionView;

    open spec fn view(&self) -> PeerActionView {
        match self {
            PeerAction::Enqueue { recipient, blocks } => PeerActionView::Enqueue {
                recipient: recipient@,
                blocks: blocks_of(blocks@),
            },
            PeerAction::Dropped(reason) => PeerActionView::Dropped(*reason),
        }
    }
}

/// What a node does with a frame from a peer, given the recipient that the
/// payload names: the header as it came and the payload go to the
/// recipient's session, if the recipient is on this node.
pub open spec fn peer_action_for(
    frame: FrameView,
    recipient: Option<Seq<char>>,
    local_users: Set<Seq<char>>,
) -> PeerActionView {
    match recipient {
        None => PeerActionView::Dropped(DropReason::NoRecipient),
        Some(user) => if local_users.contains(user) {
            PeerActionView::Enqueue {
                recipient: user,
                blocks: seq![frame.raw_bytes, frame.payload_data],
            }
        } else {
            PeerActionView::Dropped(DropReason::UnknownRecipient)
        },
    }
}

/// Decides what a node does with a frame from a peer, given the recipient
/// that the payload names.
pub fn place_peer_frame<T>(
    data_frame: &DataFrameInfo,
    recipient: Option<String>,
    registry: &Registry<T>,
) -> (action: PeerAction)
    requires
        registry.wf(),
    ensures
        action@ == peer_action_for(data_frame@, text_view(recipient), registry@.dom()),
{
    let user = match recipient {
        None => {
            return PeerAction::Dropped(DropReason::NoRecipient);
        },
        Some(user) => user,
    };
    if !registry.contains(&user) {
        return PeerAction::Dropped(DropReason::UnknownRecipient);
    }
    let header = copy_range(data_frame.raw_bytes.as_slice(), 0, data_frame.raw_bytes.len());
    let data = copy_range(data_frame.payload_data.as_slice(), 0, data_frame.payload_data.len());
    assert(header@ =~= data_frame@.raw_bytes);
    assert(data@ =~= data_frame@.payload_data);
    let mut blocks: Vec<Vec<u8>> = Vec::new();
    blocks.push(header);
    blocks.push(data);
    assert(blocks_of(blocks@) =~= seq![data_frame@.raw_bytes, data_frame@.payload_data]);
    PeerAction::Enqueue { recipient: user, blocks }
}

/// Decides what a node does with a frame that a peer sent it.
pub fn peer_step<T>(data_frame: &DataFrameInfo, registry: &Registry<T>) -> (action: PeerAction)
    requires
        registry.wf(),
    ensures
        action@ == peer_action_for(
            data_frame@,
            json_text_field(data_frame@.payload_data, recipient_key()),
            registry@.dom(),
        ),
{
    let recipient = recipient_of(data_frame.payload_data.as_slice());
    place_peer_frame(data_frame, recipient, registry)
}

/// The view of an optional directory command.
pub open spec fn command_view(command: Option<DirectoryCommand>) -> Option<DirectoryCommandView> {
    match command {
        Some(c) => Some(c@),
        None => None,
    }
}

/// What setting a session up came to.
pub struct SessionStart<T> {
    /// The handle of the session that the user had before, if any.
    pub displaced: Option<T>,
    /// What to tell the directory, if anything.
    pub advertise: Option<DirectoryCommand>,
}

/// What tearing a session down came to.
pub struct SessionEnd<T> {
    /// The handle that the registry held for the user, if any.
    pub removed: Option<T>,
    /// What to tell the directory, if anything.
    pub withdraw: Option<DirectoryCommand>,
}

/// Enters a new session into the registry and, on a node that is part of a
/// cluster, says how to advertise it: the user is owned by the node that
/// listens for its peers at `peer_address`.
pub fn open_session<T>(
    registry: &mut Registry<T>,
    user_id: &String,
    handle: T,
    clustered: bool,
    peer_address: &[u8],
) -> (start: SessionStart<T>)
    requires
        old(registry).wf(),
    ensures
        final(registry).wf(),
        final(registry)@ == old(registry)@.insert(user_id@, handle),
        match start.displaced {
            Some(h) => old(registry)@.contains_key(user_id@) && old(registry)@[user_id@] == h,
            None => !old(registry)@.contains_key(user_id@),
        },
        command_view(start.advertise) == (if clustered {
            Some(DirectoryCommandView::Advertise { key: user_id@, value: peer_address@ })
        } else {
            None
        }),
{
    let displaced = registry.insert(user_id.clone(), handle);
    let advertise = if clustered {
        Some(
            DirectoryCommand::Advertise {
                key: user_id.clone(),
                value: copy_range(peer_address, 0, peer_address.len()),
            },
        )
    } else {
        None
    };
    proof {
        if clustered {
            assert(advertise->Some_0@->Advertise_value =~= peer_address@);
        }
    }
    SessionStart { displaced, advertise }
}

/// Takes a session out of the registry and, on a node that is part of a
/// cluster, says how to withdraw it from the directory.
pub fn close_session<T>(registry: &mut Registry<T>, user_id: &String, clustered: bool) -> (end:
    SessionEnd<T>)
    requires
        old(registry).wf(),
    ensures
        final(registry).wf(),
        final(registry)@ == old(registry)@.remove(user_id@),
        !final(registry)@.contains_key(user_id@),
        match end.removed {
            Some(h) => old(registry)@.contains_key(user_id@) && old(registry)@[user_id@] == h,
            None => !old(registry)@.contains_key(user_id@),
        },
        command_view(end.withdraw) == (if clustered {
            Some(DirectoryCommandView::Withdraw { key: user_id@ })
        } else {
            None
        }),
{
    let removed = registry.remove(user_id);
    let withdraw = if clustered {
        Some(DirectoryCommand::Withdraw { key: user_id.clone() })
    } else {
        None
    };
    SessionEnd { removed, withdraw }
}

/// The directory after what a session's start or end asks of it, if it asks
/// anything.
pub open spec fn directory_then(directory: Directory, command: Option<DirectoryCommandView>) -> Directory {
    match command {
        Some(c) => directory_after(directory, c),
        None => directory,
    }
}

/// Once a session is set up, the registry names the session for its user,
/// and on a node that is part of a cluster the directory names the node.
pub proof fn lemma_session_is_found<T>(
    registry: Map<Seq<char>, T>,
    directory: Directory,
    user: Seq<char>,
    handle: T,
    peer_address: Seq<u8>,
)
    ensures
        registry.insert(user, handle).contains_key(user),
        registry.insert(user, handle)[user] == handle,
        directory_get(
            directory_then(
                directory,
                Some(DirectoryCommandView::Advertise { key: user, value: peer_address }),
            ),
            user,
        ) == peer_address,
{
    lemma_set_key_is_found(directory, user, peer_address);
}

/// Once a session is torn down, the registry holds nothing for its user, and
/// on a node that is part of a cluster the directory answers nothing for the
/// user; a node that is no part of a cluster leaves the directory alone.
pub proof fn lemma_teardown_leaves_no_entry<T>(
    registry: Map<Seq<char>, T>,
    directory: Directory,
    user: Seq<char>,
)
    ensures
        !registry.remove(user).contains_key(user),
        directory_get(
            directory_then(directory, Some(DirectoryCommandView::Withdraw { key: user })),
            user,
        ) == Seq::<u8>::empty(),
        directory_then(directory, None) == directory,
{
    lemma_deleted_key_is_absent(directory, user);
}

} // verus!
