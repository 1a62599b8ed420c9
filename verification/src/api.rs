//! How a request of the programming interface is dealt with.

use vstd::prelude::*;

verus! {

/// The requests, as far as they are dealt with differently.
#[derive(Debug, Clone, Copy, PartialEq, Eq, Structural)]
pub enum ApiMethod {
    ServerStop,
    ServerLiveHandoff,
    WorktreeCreate,
    WorktreeRemove,
    Other,
}

/// A step on the way to the answer.
#[derive(Debug, Clone, Copy, PartialEq, Eq, Structural)]
pub enum ApiStep {
    /// Expire the agent metadata that is due.
    ExpireMetadata,
    /// Ask whether a request of this kind changes what shows.
    RequestChangesUi,
    /// Deal with everything that the program has told itself.
    DrainInternalEvents,
    /// Start the work on a worktree, which answers the request when it is done.
    HandleDeferredWorktree,
    /// Carry out the request.
    HandleRequest,
    /// Open a workspace if there is none.
    EnsureDefaultWorkspace,
    /// Send the answer.
    Respond,
    /// Let the input source follow the mode, which may have changed.
    SyncPrefixInputSource,
}

impl ApiMethod {
    /// The work takes long and is answered later.
    pub open spec fn is_deferred(self) -> bool {
        self == ApiMethod::WorktreeCreate || self == ApiMethod::WorktreeRemove
    }

    /// The program is about to end, so no workspace is opened.
    pub open spec fn skips_default_workspace(self) -> bool {
        self == ApiMethod::ServerStop || self == ApiMethod::ServerLiveHandoff
    }

    /// The steps of a request, in their order.
    pub open spec fn steps(self) -> Seq<ApiStep> {
        let start = seq![ApiStep::ExpireMetadata, ApiStep::RequestChangesUi];
        if self.is_deferred() {
            start + seq![
                ApiStep::DrainInternalEvents,
                ApiStep::HandleDeferredWorktree,
                ApiStep::EnsureDefaultWorkspace,
                ApiStep::SyncPrefixInputSource,
            ]
        } else {
            start + seq![ApiStep::HandleRequest] + (if self.skips_default_workspace() {
                Seq::empty()
            } else {
                seq![ApiStep::EnsureDefaultWorkspace]
            }) + seq![ApiStep::Respond, ApiStep::SyncPrefixInputSource]
        }
    }
}

impl ApiStep {
    /// The outcome of the step says whether something that shows has changed.
    pub open spec fn counts(self) -> bool {
        match self {
            ApiStep::ExpireMetadata
            | ApiStep::RequestChangesUi
            | ApiStep::HandleDeferredWorktree
            | ApiStep::EnsureDefaultWorkspace => true,
            _ => false,
        }
    }
}

/// How far a request has come.
#[derive(Debug, Clone, PartialEq, Eq)]
pub struct ApiRun {
    pub steps: Vec<ApiStep>,
    /// How many steps are done.
    pub done: usize,
    /// Something that shows has changed.
    pub changed: bool,
}

impl ApiRun {
    pub open spec fn wf(self) -> bool {
        self.done <= self.steps@.len()
    }

    /// Begins to deal with a request.
    pub fn handle_api_request_message(method: ApiMethod) -> (run: Self)
        ensures
            run.wf(),
            run.steps@ == method.steps(),
            run.done == 0,
            !run.changed,
    {
        let skip_default_workspace = match method {
            ApiMethod::ServerStop | ApiMethod::ServerLiveHandoff => true,
            _ => false,
        };
        let deferred = match method {
            ApiMethod::WorktreeCreate | ApiMethod::WorktreeRemove => true,
            _ => false,
        };
        let mut steps: Vec<ApiStep> = Vec::new();
        steps.push(ApiStep::ExpireMetadata);
        steps.push(ApiStep::RequestChangesUi);
        if deferred {
            steps.push(ApiStep::DrainInternalEvents);
            steps.push(ApiStep::HandleDeferredWorktree);
            if !skip_default_workspace {
                steps.push(ApiStep::EnsureDefaultWorkspace);
            }
        } else {
            steps.push(ApiStep::HandleRequest);
            if !skip_default_workspace {
                steps.push(ApiStep::EnsureDefaultWorkspace);
            }
            steps.push(ApiStep::Respond);
        }
        steps.push(ApiStep::SyncPrefixInputSource);
        assert(steps@ =~= method.steps());
        ApiRun { steps, done: 0, changed: false }
    }

    /// The step that comes next, if the request is not dealt with yet.
    pub fn next_step(&self) -> (r: Option<ApiStep>)
        requires
            self.wf(),
        ensures
            r == if self.done < self.steps@.len() {
                Some(self.steps@[self.done as int])
            } else {
                None
            },
    {
        if self.done < self.steps.len() {
            Some(self.steps[self.done])
        } else {
            None
        }
    }

    /// The next step is done. `outcome` is what it says has changed, where it says so.
    pub fn step_done(&mut self, outcome: bool)
        requires
            old(self).wf(),
            old(self).done < old(self).steps@.len(),
        ensures
            final(self).wf(),
            *final(self) == (ApiRun {
                done: (old(self).done + 1) as usize,
                changed: old(self).changed || (outcome
                    && old(self).steps@[old(self).done as int].counts()),
                ..*old(self)
            }),
    {
        assert(self.done < self.steps.len());
        let counts = match self.steps[self.done] {
            ApiStep::ExpireMetadata
            | ApiStep::RequestChangesUi
            | ApiStep::HandleDeferredWorktree
            | ApiStep::EnsureDefaultWorkspace => true,
            _ => false,
        };
        self.changed = self.changed || (outcome && counts);
        self.done = self.done + 1;
    }
}

/// Every request is carried out once, after stale metadata is gone and before the input
/// source follows the mode. One that is answered at once is answered after a workspace
/// is open; one that is answered later finds no event of the program still waiting.
pub proof fn steps_are_in_order(method: ApiMethod)
    ensures
        ({
            let steps = method.steps();
            &&& steps.no_duplicates()
            &&& steps[0] == ApiStep::ExpireMetadata
            &&& steps.last() == ApiStep::SyncPrefixInputSource
            &&& steps.contains(ApiStep::EnsureDefaultWorkspace)
                <==> !method.skips_default_workspace()
            &&& if method.is_deferred() {
                &&& steps.subrange(2, 4) == seq![
                    ApiStep::DrainInternalEvents,
                    ApiStep::HandleDeferredWorktree,
                ]
                &&& !steps.contains(ApiStep::Respond)
            } else {
                &&& steps[2] == ApiStep::HandleRequest
                &&& steps[steps.len() - 2] == ApiStep::Respond
                &&& !steps.contains(ApiStep::HandleDeferredWorktree)
            }
        }),
{
    let steps = method.steps();
    if method.is_deferred() {
        assert(steps =~= seq![
            ApiStep::ExpireMetadata,
            ApiStep::RequestChangesUi,
            ApiStep::DrainInternalEvents,
            ApiStep::HandleDeferredWorktree,
            ApiStep::EnsureDefaultWorkspace,
            ApiStep::SyncPrefixInputSource,
        ]);
        assert(steps[4] == ApiStep::EnsureDefaultWorkspace);
        assert(steps.subrange(2, 4) =~= seq![
            ApiStep::DrainInternalEvents,
            ApiStep::HandleDeferredWorktree,
        ]);
    } else if method.skips_default_workspace() {
        assert(steps =~= seq![
            ApiStep::ExpireMetadata,
            ApiStep::RequestChangesUi,
            ApiStep::HandleRequest,
            ApiStep::Respond,
            ApiStep::SyncPrefixInputSource,
        ]);
    } else {
        assert(steps =~= seq![
            ApiStep::ExpireMetadata,
            ApiStep::RequestChangesUi,
            ApiStep::HandleRequest,
            ApiStep::EnsureDefaultWorkspace,
            ApiStep::Respond,
            ApiStep::SyncPrefixInputSource,
        ]);
        assert(steps[3] == ApiStep::EnsureDefaultWorkspace);
    }
}

/// The steps of every kind of request. Something that shows has changed if the expiry of
/// metadata, the kind of the request, the work on a worktree or the opening of a workspace
/// says so; the other steps do not say.
pub proof fn steps_of_every_request(method: ApiMethod, step: ApiStep)
    ensures
        method == ApiMethod::Other ==> method.steps() == seq![
            ApiStep::ExpireMetadata,
            ApiStep::RequestChangesUi,
            ApiStep::HandleRequest,
            ApiStep::EnsureDefaultWorkspace,
            ApiStep::Respond,
            ApiStep::SyncPrefixInputSource,
        ],
        method == ApiMethod::ServerStop || method == ApiMethod::ServerLiveHandoff ==> method.steps()
            == seq![
            ApiStep::ExpireMetadata,
            ApiStep::RequestChangesUi,
            ApiStep::HandleRequest,
            ApiStep::Respond,
            ApiStep::SyncPrefixInputSource,
        ],
        method == ApiMethod::WorktreeCreate || method == ApiMethod::WorktreeRemove
            ==> method.steps() == seq![
            ApiStep::ExpireMetadata,
            ApiStep::RequestChangesUi,
            ApiStep::DrainInternalEvents,
            ApiStep::HandleDeferredWorktree,
            ApiStep::EnsureDefaultWorkspace,
            ApiStep::SyncPrefixInputSource,
        ],
        !step.counts() <==> step == ApiStep::DrainInternalEvents || step == ApiStep::HandleRequest
            || step == ApiStep::Respond || step == ApiStep::SyncPrefixInputSource,
{
    let plain = seq![
        ApiStep::ExpireMetadata,
        ApiStep::RequestChangesUi,
        ApiStep::HandleRequest,
        ApiStep::EnsureDefaultWorkspace,
        ApiStep::Respond,
        ApiStep::SyncPrefixInputSource,
    ];
    let ending = seq![
        ApiStep::ExpireMetadata,
        ApiStep::RequestChangesUi,
        ApiStep::HandleRequest,
        ApiStep::Respond,
        ApiStep::SyncPrefixInputSource,
    ];
    let deferred = seq![
        ApiStep::ExpireMetadata,
        ApiStep::RequestChangesUi,
        ApiStep::DrainInternalEvents,
        ApiStep::HandleDeferredWorktree,
        ApiStep::EnsureDefaultWorkspace,
        ApiStep::SyncPrefixInputSource,
    ];
    match method {
        ApiMethod::Other => assert(method.steps() =~= plain),
        ApiMethod::ServerStop | ApiMethod::ServerLiveHandoff => assert(method.steps() =~= ending),
        _ => assert(method.steps() =~= deferred),
    }
}

} // verus!
