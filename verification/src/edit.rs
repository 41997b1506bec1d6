use vstd::prelude::*;

verus! {

/// What the user chose before the editor opens, when a local draft
/// already exists.
#[derive(Debug, Clone, Copy, PartialEq, Eq, Structural)]
pub enum PreEditChoice {
    Edit,
    Discard,
    Quit,
}

/// What the user chose after editing.
#[derive(Debug, Clone, Copy, PartialEq, Eq, Structural)]
pub enum PostEditChoice {
    Send,
    Edit,
    LocalDraft,
    RemoteDraft,
    Discard,
}

/// What the editing flow does next, before the editor: open the
/// existing draft, open a fresh template, or stop.
#[derive(Debug, Clone, Copy, PartialEq, Eq, Structural)]
pub enum PreEditAction {
    OpenDraft,
    OpenTemplate,
    Stop,
}

/// What the editing flow does next, after the editor.
#[derive(Debug, Clone, Copy, PartialEq, Eq, Structural)]
pub enum PostEditAction {
    SendMsg,
    ReEdit,
    SaveLocal,
    SaveRemote,
    DiscardDraft,
}

/// The decision before the editor: without a local draft a fresh
/// template always opens; with one, the choice picks it up, discards
/// it, or stops.
pub open spec fn pre_edit_spec(draft_exists: bool, choice: PreEditChoice) -> PreEditAction {
    if !draft_exists {
        PreEditAction::OpenTemplate
    } else {
        match choice {
            PreEditChoice::Edit => PreEditAction::OpenDraft,
            PreEditChoice::Discard => PreEditAction::OpenTemplate,
            PreEditChoice::Quit => PreEditAction::Stop,
        }
    }
}

/// Decides what to do before the editor opens.
pub fn pre_edit_action(draft_exists: bool, choice: PreEditChoice) -> (r: PreEditAction)
    ensures
        r == pre_edit_spec(draft_exists, choice),
{
    if !draft_exists {
        PreEditAction::OpenTemplate
    } else {
        match choice {
            PreEditChoice::Edit => PreEditAction::OpenDraft,
            PreEditChoice::Discard => PreEditAction::OpenTemplate,
            PreEditChoice::Quit => PreEditAction::Stop,
        }
    }
}

/// The decision after editing: each choice maps to exactly one
/// action.
pub open spec fn post_edit_spec(choice: PostEditChoice) -> PostEditAction {
    match choice {
        PostEditChoice::Send => PostEditAction::SendMsg,
        PostEditChoice::Edit => PostEditAction::ReEdit,
        PostEditChoice::LocalDraft => PostEditAction::SaveLocal,
        PostEditChoice::RemoteDraft => PostEditAction::SaveRemote,
        PostEditChoice::Discard => PostEditAction::DiscardDraft,
    }
}

/// Decides what to do with the edited message.
pub fn post_edit_action(choice: PostEditChoice) -> (r: PostEditAction)
    ensures
        r == post_edit_spec(choice),
{
    match choice {
        PostEditChoice::Send => PostEditAction::SendMsg,
        PostEditChoice::Edit => PostEditAction::ReEdit,
        PostEditChoice::LocalDraft => PostEditAction::SaveLocal,
        PostEditChoice::RemoteDraft => PostEditAction::SaveRemote,
        PostEditChoice::Discard => PostEditAction::DiscardDraft,
    }
}

} // verus!
