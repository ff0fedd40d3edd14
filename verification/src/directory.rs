use vstd::prelude::*;

verus! {

/// A change that a node asks the shared directory to make. Keys are user
/// ids; values are addresses on which a node listens for its peers.
#[derive(Debug)]
pub enum DirectoryCommand {
    /// `SET key value`, without expiry: the user is owned by the node at
    /// that address.
    Advertise { key: String, value: Vec<u8> },
    /// `DEL key`: the user is owned by no node.
    Withdraw { key: String },
}

pub enum DirectoryCommandView {
    Advertise { key: Seq<char>, value: Seq<u8> },
    Withdraw { key: Seq<char> },
}

impl View for DirectoryCommand {
    type V = DirectoryCommandView;

    open spec fn view(&self) -> DirectoryCommandView {
        match self {
            DirectoryCommand::Advertise { key, value } => DirectoryCommandView::Advertise {
                key: key@,
                value: value@,
            },
            DirectoryCommand::Withdraw { key } => DirectoryCommandView::Withdraw { key: key@ },
        }
    }
}

/// The directory as a mathematical value: for each user id that it holds,
/// the address of the node that owns the user.
pub type Directory = Map<Seq<char>, Seq<u8>>;

/// The directory after a command.
pub open spec fn directory_after(directory: Directory, command: DirectoryCommandView) -> Directory {
    match command {
        DirectoryCommandView::Advertise { key, value } => directory.insert(key, value),
        DirectoryCommandView::Withdraw { key } => directory.remove(key),
    }
}

/// What the directory answers to `GET key`: the value, or nothing at all
/// where it holds none.
pub open spec fn directory_get(directory: Directory, key: Seq<char>) -> Seq<u8> {
    if directory.contains_key(key) {
        directory[key]
    } else {
        Seq::empty()
    }
}

/// The address to forward to, given what came back from `GET`: a reply that
/// is an error or empty names no node.
pub open spec fn owner_address(reply: Option<Seq<u8>>) -> Option<Seq<u8>> {
    match reply {
        Some(address) => if address.len() > 0 {
            Some(address)
        } else {
            None
        },
        None => None,
    }
}

/// Reads the reply to `GET` for a user: the address of the node that owns
/// the user, or nothing where the reply is an error or empty.
pub fn forward_target(reply: Option<Vec<u8>>) -> (target: Option<Vec<u8>>)
    ensures
        crate::http_types::bytes_view(target) == owner_address(crate::http_types::bytes_view(reply)),
{
    match reply {
        Some(address) => {
            if address.len() > 0 {
                Some(address)
            } else {
                None
            }
        },
        None => None,
    }
}

/// After `DEL` for a user, `GET` for that user answers nothing, and the
/// other users' entries are as before.
pub proof fn lemma_deleted_key_is_absent(directory: Directory, user: Seq<char>)
    ensures
        directory_get(directory_after(directory, DirectoryCommandView::Withdraw { key: user }), user)
            == Seq::<u8>::empty(),
        forall|other: Seq<char>|
            other != user ==> directory_get(
                directory_after(directory, DirectoryCommandView::Withdraw { key: user }),
                other,
            ) == directory_get(directory, other),
{
}

/// After `SET` for a user, `GET` for that user answers the address that was
/// set.
pub proof fn lemma_set_key_is_found(directory: Directory, user: Seq<char>, address: Seq<u8>)
    ensures
        directory_get(
            directory_after(directory, DirectoryCommandView::Advertise { key: user, value: address }),
            user,
        ) == address,
{
}

} // verus!
