//! The user card: a modal about one chat user whose history and metadata load in the
//! background. Every opening and closing starts a new generation, and an answer is taken only
//! for the generation (and, for history, the request) it was asked for.
use crate::app_state::{UserCardHistoryRequest, UserCardHistoryRequestKind, UserCardLoadState, UserCardTarget};
use crate::protocol::messages::UserCardMetadataResponse;
use crate::protocol::rpc::UserChatHistoryCursor;
use crate::protocol::types::NormalizedChatMessage;
use vstd::prelude::*;

verus! {

/// A page of a user's chat history, newest first, and where the next older page starts.
#[derive(Debug, PartialEq)]
pub struct UserCardHistoryPage {
    pub messages: Vec<NormalizedChatMessage>,
    pub has_more: bool,
    pub next_cursor: Option<UserChatHistoryCursor>,
}

/// The user card's state.
#[derive(Debug)]
pub struct UserCardModalState {
    pub open: bool,
    pub target: Option<UserCardTarget>,
    pub history: UserCardLoadState<Vec<NormalizedChatMessage>>,
    pub metadata: UserCardLoadState<UserCardMetadataResponse>,
    pub has_more: bool,
    pub next_cursor: Option<UserChatHistoryCursor>,
    pub loading_older: bool,
    pub generation: u64,
    pub history_request_id: u64,
    pub active_history_request_id: Option<u64>,
}

/// `n + 1`, or `n` when that does not fit.
pub open spec fn bumped(n: u64) -> u64 {
    if n == u64::MAX {
        u64::MAX
    } else {
        (n + 1) as u64
    }
}

/// A closed card of generation `generation`, with no request counted.
pub open spec fn closed_card(generation: u64) -> UserCardModalState {
    UserCardModalState {
        open: false,
        target: None,
        history: UserCardLoadState::Idle,
        metadata: UserCardLoadState::Idle,
        has_more: false,
        next_cursor: None,
        loading_older: false,
        generation,
        history_request_id: 0,
        active_history_request_id: None,
    }
}

/// Whether the card is open on a user.
pub open spec fn showing(c: UserCardModalState) -> bool {
    c.open && c.target is Some
}

/// Whether an answer to `request` is the one the card waits for.
pub open spec fn awaited(c: UserCardModalState, request: UserCardHistoryRequest) -> bool {
    c.open && c.generation == request.generation && c.active_history_request_id == Some(request.request_id)
}

impl UserCardModalState {
    /// A closed card of the first generation.
    pub fn closed() -> (r: Self)
        ensures
            r == closed_card(0),
    {
        Self::closed_with_generation(0)
    }

    /// A closed card of generation `generation`.
    pub fn closed_with_generation(generation: u64) -> (r: Self)
        ensures
            r == closed_card(generation),
    {
        UserCardModalState {
            open: false,
            target: None,
            history: UserCardLoadState::Idle,
            metadata: UserCardLoadState::Idle,
            has_more: false,
            next_cursor: None,
            loading_older: false,
            generation,
            history_request_id: 0,
            active_history_request_id: None,
        }
    }

    /// Opens the card on `target`, as a new generation with nothing loaded; returns the
    /// generation.
    pub fn open_user_card(&mut self, target: UserCardTarget) -> (r: u64)
        ensures
            r == bumped(old(self).generation),
            *final(self) == (UserCardModalState {
                open: true,
                target: Some(target),
                history: UserCardLoadState::Idle,
                metadata: UserCardLoadState::Idle,
                has_more: false,
                next_cursor: None,
                loading_older: false,
                generation: r,
                history_request_id: old(self).history_request_id,
                active_history_request_id: None,
            }),
    {
        self.generation = self.generation.saturating_add(1);
        self.open = true;
        self.target = Some(target);
        self.history = UserCardLoadState::Idle;
        self.metadata = UserCardLoadState::Idle;
        self.has_more = false;
        self.next_cursor = None;
        self.loading_older = false;
        self.active_history_request_id = None;
        self.generation
    }

    /// Closes the card, as a new generation; returns the generation.
    pub fn close_user_card(&mut self) -> (r: u64)
        ensures
            r == bumped(old(self).generation),
            *final(self) == closed_card(r),
    {
        let generation = self.generation.saturating_add(1);
        *self = Self::closed_with_generation(generation);
        self.generation
    }

    /// The id of a new history request.
    fn next_user_card_history_request_id(&mut self) -> (r: u64)
        ensures
            r == bumped(old(self).history_request_id),
            *final(self) == (UserCardModalState { history_request_id: r, ..*old(self) }),
    {
        self.history_request_id = self.history_request_id.saturating_add(1);
        self.history_request_id
    }

    /// Starts loading the first page of the user's history, unless the card shows no user;
    /// any older-page load in flight is forgotten.
    pub fn start_user_card_history_load(&mut self) -> (r: Option<UserCardHistoryRequest>)
        ensures
            !showing(*old(self)) ==> r is None && *final(self) == *old(self),
            showing(*old(self)) ==> r == Some(
                UserCardHistoryRequest {
                    generation: old(self).generation,
                    request_id: bumped(old(self).history_request_id),
                    kind: UserCardHistoryRequestKind::Initial,
                },
            ) && *final(self) == (UserCardModalState {
                history: UserCardLoadState::Loading { generation: old(self).generation },
                loading_older: false,
                history_request_id: bumped(old(self).history_request_id),
                active_history_request_id: Some(bumped(old(self).history_request_id)),
                ..*old(self)
            }),
    {
        if !self.open || self.target.is_none() {
            return None;
        }
        let generation = self.generation;
        let request_id = self.next_user_card_history_request_id();
        self.history = UserCardLoadState::Loading { generation };
        self.loading_older = false;
        self.active_history_request_id = Some(request_id);
        Some(UserCardHistoryRequest { generation, request_id, kind: UserCardHistoryRequestKind::Initial })
    }

    /// Starts loading the next older page, when the card shows a user, there is more history
    /// with a cursor to it, and no older page is already loading.
    pub fn start_user_card_older_history_load(&mut self) -> (r: Option<UserCardHistoryRequest>)
        ensures
            !(showing(*old(self)) && old(self).has_more && old(self).next_cursor is Some && !old(self).loading_older)
                ==> r is None && *final(self) == *old(self),
            (showing(*old(self)) && old(self).has_more && old(self).next_cursor is Some && !old(self).loading_older)
                ==> r == Some(
                UserCardHistoryRequest {
                    generation: old(self).generation,
                    request_id: bumped(old(self).history_request_id),
                    kind: UserCardHistoryRequestKind::Older,
                },
            ) && *final(self) == (UserCardModalState {
                loading_older: true,
                history_request_id: bumped(old(self).history_request_id),
                active_history_request_id: Some(bumped(old(self).history_request_id)),
                ..*old(self)
            }),
    {
        if !self.open || self.target.is_none() || !self.has_more || self.next_cursor.is_none() || self.loading_older {
            return None;
        }
        let generation = self.generation;
        let request_id = self.next_user_card_history_request_id();
        self.loading_older = true;
        self.active_history_request_id = Some(request_id);
        Some(UserCardHistoryRequest { generation, request_id, kind: UserCardHistoryRequestKind::Older })
    }

    /// Takes the answer to a history request, if it is the one awaited: a page is loaded (an
    /// older page goes before what was loaded) with its cursor; an error is kept. Returns
    /// whether the answer was taken; a late answer changes nothing.
    pub fn apply_user_card_history_result(
        &mut self,
        request: UserCardHistoryRequest,
        result: Result<UserCardHistoryPage, String>,
    ) -> (r: bool)
        ensures
            r == awaited(*old(self), request),
            !r ==> *final(self) == *old(self),
            r ==> final(self).open == old(self).open && final(self).target == old(self).target
                && final(self).metadata == old(self).metadata && final(self).generation == old(self).generation
                && final(self).history_request_id == old(self).history_request_id && !final(self).loading_older
                && final(self).active_history_request_id is None,
            r ==> match result {
                Ok(page) => final(self).history matches UserCardLoadState::Loaded { generation, value }
                    && generation == request.generation && value@ == page.messages@ + (if request.kind
                    == UserCardHistoryRequestKind::Older {
                    match old(self).history {
                        UserCardLoadState::Loaded { value: earlier, .. } => earlier@,
                        _ => Seq::empty(),
                    }
                } else {
                    Seq::empty()
                }) && final(self).has_more == page.has_more && final(self).next_cursor == page.next_cursor,
                Err(e) => final(self).history == UserCardLoadState::<Vec<NormalizedChatMessage>>::Error {
                    generation: request.generation,
                    error: e,
                } && final(self).has_more == old(self).has_more && final(self).next_cursor == old(self).next_cursor,
            },
    {
        let awaited_now = match self.active_history_request_id {
            Some(id) => id == request.request_id,
            None => false,
        };
        if !self.open || self.generation != request.generation || !awaited_now {
            return false;
        }
        match result {
            Ok(page) => {
                let mut messages = page.messages;
                if request.kind == UserCardHistoryRequestKind::Older {
                    let mut earlier: UserCardLoadState<Vec<NormalizedChatMessage>> = UserCardLoadState::Idle;
                    core::mem::swap(&mut earlier, &mut self.history);
                    match earlier {
                        UserCardLoadState::Loaded { value, .. } => {
                            let mut value = value;
                            messages.append(&mut value);
                        },
                        _ => {},
                    }
                }
                self.history = UserCardLoadState::Loaded { generation: request.generation, value: messages };
                self.has_more = page.has_more;
                self.next_cursor = page.next_cursor;
            },
            Err(error) => {
                self.history = UserCardLoadState::Error { generation: request.generation, error };
            },
        }
        self.loading_older = false;
        self.active_history_request_id = None;
        true
    }

    /// Starts loading the user's metadata, unless the card shows no user; returns the
    /// generation it is for.
    pub fn start_user_card_metadata_load(&mut self) -> (r: Option<u64>)
        ensures
            !showing(*old(self)) ==> r is None && *final(self) == *old(self),
            showing(*old(self)) ==> r == Some(old(self).generation) && *final(self) == (UserCardModalState {
                metadata: UserCardLoadState::Loading { generation: old(self).generation },
                ..*old(self)
            }),
    {
        if !self.open || self.target.is_none() {
            return None;
        }
        let generation = self.generation;
        self.metadata = UserCardLoadState::Loading { generation };
        Some(generation)
    }

    /// Takes the metadata answer for `generation`, if the card is open on that generation;
    /// returns whether it was taken. A late answer changes nothing.
    pub fn apply_user_card_metadata_result(
        &mut self,
        generation: u64,
        result: Result<UserCardMetadataResponse, String>,
    ) -> (r: bool)
        ensures
            r == (old(self).open && old(self).generation == generation),
            !r ==> *final(self) == *old(self),
            r ==> *final(self) == (UserCardModalState {
                metadata: match result {
                    Ok(m) => UserCardLoadState::Loaded { generation, value: m },
                    Err(e) => UserCardLoadState::Error { generation, error: e },
                },
                ..*old(self)
            }),
    {
        if !self.open || self.generation != generation {
            return false;
        }
        match result {
            Ok(metadata) => {
                self.metadata = UserCardLoadState::Loaded { generation, value: metadata };
            },
            Err(error) => {
                self.metadata = UserCardLoadState::Error { generation, error };
            },
        }
        true
    }
}

/// An answer to a history request made before the card was closed or reopened is never
/// taken: after the request, a new generation leaves no request awaited with the old one.
pub proof fn stale_history_answer_is_ignored(c: UserCardModalState, request: UserCardHistoryRequest)
    requires
        request.generation != c.generation,
    ensures
        !awaited(c, request),
{
}

/// The request a started history load returns is the one the card then awaits.
pub proof fn started_history_request_is_awaited(before: UserCardModalState, after: UserCardModalState, request: UserCardHistoryRequest)
    requires
        showing(before),
        after == (UserCardModalState {
            history: UserCardLoadState::Loading { generation: before.generation },
            loading_older: false,
            history_request_id: bumped(before.history_request_id),
            active_history_request_id: Some(bumped(before.history_request_id)),
            ..before
        }),
        request == (UserCardHistoryRequest {
            generation: before.generation,
            request_id: bumped(before.history_request_id),
            kind: UserCardHistoryRequestKind::Initial,
        }),
    ensures
        awaited(after, request),
{
}

} // verus!
