//! The service: from a configuration to the set of long-running tasks that
//! make up the server, and the hub they share.
//!
//! Nothing is started here. The host program spawns one task per entry of
//! the plan.

use vstd::prelude::*;
use crate::channels::{ChannelsManager, HubView};
use crate::endpoint::{endpoint, format_endpoint};
use crate::xiu_config::{HlsConfig, HttpFlvConfig, RtmpConfig, RtmpPushConfig, XiuConfig};

verus! {

/// One long-running task of the server.
#[derive(Debug, Clone, PartialEq, Eq)]
pub enum Task {
    /// The HTTP-FLV responder, listening on `port`.
    HttpFlvServer { port: u32 },
    /// The consumer that turns hub events into HLS segments.
    HlsEventProcessor,
    /// The HTTP server for HLS playlists and segments, listening on `port`.
    HlsServer { port: u32 },
    /// A relay that pushes local streams to the server at `address`.
    PushClient { address: String },
    /// A relay that pulls streams from the server at `address`.
    PullClient { address: String },
    /// The inbound RTMP listener, bound to `address`.
    RtmpServer { address: String },
    /// The hub's own event loop.
    Hub,
}

pub ghost enum TaskView {
    HttpFlvServer { port: u32 },
    HlsEventProcessor,
    HlsServer { port: u32 },
    PushClient { address: Seq<char> },
    PullClient { address: Seq<char> },
    RtmpServer { address: Seq<char> },
    Hub,
}

impl View for Task {
    type V = TaskView;

    open spec fn view(&self) -> TaskView {
        match *self {
            Task::HttpFlvServer { port } => TaskView::HttpFlvServer { port },
            Task::HlsEventProcessor => TaskView::HlsEventProcessor,
            Task::HlsServer { port } => TaskView::HlsServer { port },
            Task::PushClient { address } => TaskView::PushClient { address: address@ },
            Task::PullClient { address } => TaskView::PullClient { address: address@ },
            Task::RtmpServer { address } => TaskView::RtmpServer { address: address@ },
            Task::Hub => TaskView::Hub,
        }
    }
}

/// The views of a list of tasks, in order.
pub open spec fn task_views(tasks: Seq<Task>) -> Seq<TaskView> {
    tasks.map_values(|t: Task| t@)
}

/// The address on which the RTMP listener accepts connections from anywhere.
pub open spec fn any_host() -> Seq<char> {
    "0.0.0.0"@
}

/// The tasks of the HTTP-FLV section: the responder.
pub open spec fn httpflv_tasks(config: HttpFlvConfig) -> Seq<TaskView> {
    seq![TaskView::HttpFlvServer { port: config.spec_listen_port() }]
}

/// The tasks of the HLS section: the event processor, then the server.
pub open spec fn hls_tasks(config: HlsConfig) -> Seq<TaskView> {
    seq![TaskView::HlsEventProcessor, TaskView::HlsServer { port: config.port }]
}

/// One push client for every enabled target, in the order of the
/// configuration. Disabled targets start nothing.
pub open spec fn push_tasks(targets: Seq<RtmpPushConfig>) -> Seq<TaskView>
    decreases targets.len(),
{
    if targets.len() == 0 {
        Seq::empty()
    } else {
        let before = push_tasks(targets.drop_last());
        let target = targets.last();
        if target.enabled {
            before.push(
                TaskView::PushClient { address: endpoint(target.address@, target.port as nat) },
            )
        } else {
            before
        }
    }
}

/// Whether at least one push target is enabled.
pub open spec fn any_push_enabled(config: RtmpConfig) -> bool {
    match config.push {
        Some(targets) => exists|i: int| 0 <= i < targets@.len() && targets@[i].enabled,
        None => false,
    }
}

/// Whether the pull source is there and enabled.
pub open spec fn pull_enabled(config: RtmpConfig) -> bool {
    match config.pull {
        Some(source) => source.enabled,
        None => false,
    }
}

/// The tasks of the RTMP section: the push clients, the pull client, then
/// the listener on the configured port (1935 if none is given).
pub open spec fn rtmp_tasks(config: RtmpConfig) -> Seq<TaskView> {
    let pushes = match config.push {
        Some(targets) => push_tasks(targets@),
        None => Seq::empty(),
    };
    let pulls = match config.pull {
        Some(source) if source.enabled => seq![
            TaskView::PullClient { address: endpoint(source.address@, source.port as nat) },
        ],
        _ => Seq::empty(),
    };
    pushes + pulls + seq![
        TaskView::RtmpServer { address: endpoint(any_host(), config.spec_listen_port() as nat) },
    ]
}

/// Whether the HTTP-FLV section is there and enabled.
pub open spec fn httpflv_on(config: XiuConfig) -> bool {
    config.httpflv matches Some(c) && c.enabled
}

/// Whether the HLS section is there and enabled.
pub open spec fn hls_on(config: XiuConfig) -> bool {
    config.hls matches Some(c) && c.enabled
}

/// Whether the RTMP section is there and enabled.
pub open spec fn rtmp_on(config: XiuConfig) -> bool {
    config.rtmp matches Some(c) && c.enabled
}

/// Every task of the server, in starting order: the enabled sections in the
/// order HTTP-FLV, HLS, RTMP, then the hub.
pub open spec fn all_tasks(config: XiuConfig) -> Seq<TaskView> {
    (if httpflv_on(config) {
        httpflv_tasks(config.httpflv->0)
    } else {
        Seq::empty()
    }) + (if hls_on(config) {
        hls_tasks(config.hls->0)
    } else {
        Seq::empty()
    }) + (if rtmp_on(config) {
        rtmp_tasks(config.rtmp->0)
    } else {
        Seq::empty()
    }) + seq![TaskView::Hub]
}

/// The hub as the server starts with it: no channel, and a feature flag set
/// for each feature that the configuration turns on.
pub open spec fn initial_hub(config: XiuConfig) -> HubView {
    HubView {
        channels: Map::empty(),
        hls_enabled: hls_on(config),
        rtmp_push_enabled: rtmp_on(config) && any_push_enabled(config.rtmp->0),
        rtmp_pull_enabled: rtmp_on(config) && pull_enabled(config.rtmp->0),
    }
}

proof fn lemma_task_views_push(tasks: Seq<Task>, t: Task)
    ensures
        task_views(tasks.push(t)) == task_views(tasks).push(t@),
{
    assert(task_views(tasks.push(t)) =~= task_views(tasks).push(t@));
}

/// What the host program is to run: the hub, and the tasks around it.
pub struct Startup {
    pub hub: ChannelsManager,
    pub tasks: Vec<Task>,
}

/// The server, made from its configuration.
pub struct Xiu {
    config: XiuConfig,
}

impl Xiu {
    /// The configuration that the service was made from.
    pub closed spec fn config(&self) -> XiuConfig {
        self.config
    }

    pub fn new(config: XiuConfig) -> (service: Self)
        ensures
            service.config() == config,
    {
        Xiu { config }
    }

    /// Plans the whole server: a fresh hub with its feature flags set, and
    /// the tasks to spawn, in order.
    pub fn run(&self) -> (startup: Startup)
        ensures
            startup.hub.wf(),
            startup.hub@ == initial_hub(self.config()),
            task_views(startup.tasks@) == all_tasks(self.config()),
    {
        let mut hub = ChannelsManager::new();
        let mut tasks: Vec<Task> = Vec::new();
        assert(task_views(tasks@) =~= Seq::<TaskView>::empty());
        if let Some(httpflv_config) = &self.config.httpflv {
            if httpflv_config.enabled {
                Self::start_httpflv(httpflv_config, &mut tasks);
            }
        }
        if let Some(hls_config) = &self.config.hls {
            if hls_config.enabled {
                Self::start_hls(hls_config, &mut hub, &mut tasks);
            }
        }
        if let Some(rtmp_config) = &self.config.rtmp {
            if rtmp_config.enabled {
                Self::start_rtmp(rtmp_config, &mut hub, &mut tasks);
            }
        }
        proof {
            lemma_task_views_push(tasks@, Task::Hub);
        }
        tasks.push(Task::Hub);
        Startup { hub, tasks }
    }

    /// Adds the HTTP-FLV responder on the configured port (8081 if none is
    /// given).
    pub fn start_httpflv(config: &HttpFlvConfig, tasks: &mut Vec<Task>)
        ensures
            task_views(final(tasks)@) == task_views(old(tasks)@) + httpflv_tasks(*config),
    {
        let t = Task::HttpFlvServer { port: config.listen_port() };
        proof {
            lemma_task_views_push(tasks@, t);
        }
        tasks.push(t);
    }

    /// Adds the HLS event processor and the HLS server, and marks HLS as
    /// enabled on the hub.
    pub fn start_hls(config: &HlsConfig, hub: &mut ChannelsManager, tasks: &mut Vec<Task>)
        requires
            old(hub).wf(),
        ensures
            final(hub).wf(),
            final(hub)@ == (HubView { hls_enabled: true, ..old(hub)@ }),
            task_views(final(tasks)@) == task_views(old(tasks)@) + hls_tasks(*config),
    {
        proof {
            lemma_task_views_push(tasks@, Task::HlsEventProcessor);
        }
        tasks.push(Task::HlsEventProcessor);
        let t = Task::HlsServer { port: config.port };
        proof {
            lemma_task_views_push(tasks@, t);
        }
        tasks.push(t);
        hub.set_hls_enabled(true);
    }

    /// Adds a push client for every enabled push target, the pull client if
    /// the pull source is enabled, and the RTMP listener; marks on the hub
    /// which of the two relays are in use.
    pub fn start_rtmp(config: &RtmpConfig, hub: &mut ChannelsManager, tasks: &mut Vec<Task>)
        requires
            old(hub).wf(),
        ensures
            final(hub).wf(),
            final(hub)@ == (HubView {
                rtmp_push_enabled: old(hub)@.rtmp_push_enabled || any_push_enabled(*config),
                rtmp_pull_enabled: old(hub)@.rtmp_pull_enabled || pull_enabled(*config),
                ..old(hub)@
            }),
            task_views(final(tasks)@) == task_views(old(tasks)@) + rtmp_tasks(*config),
    {
        if let Some(targets) = &config.push {
            let mut i: usize = 0;
            while i < targets.len()
                invariant
                    i <= targets@.len(),
                    hub.wf(),
                    hub@ == (HubView {
                        rtmp_push_enabled: old(hub)@.rtmp_push_enabled || exists|j: int|
                            0 <= j < i && targets@[j].enabled,
                        ..old(hub)@
                    }),
                    task_views(tasks@) == task_views(old(tasks)@) + push_tasks(
                        targets@.take(i as int),
                    ),
                decreases targets@.len() - i,
            {
                let target = &targets[i];
                assert(targets@.take(i + 1).drop_last() =~= targets@.take(i as int));
                if target.enabled {
                    let address = format_endpoint(target.address.as_str(), target.port as u32);
                    let t = Task::PushClient { address };
                    proof {
                        lemma_task_views_push(tasks@, t);
                    }
                    tasks.push(t);
                    hub.set_rtmp_push_enabled(true);
                }
                i += 1;
            }
            assert(targets@.take(i as int) =~= targets@);
        }
        if let Some(source) = &config.pull {
            if source.enabled {
                let address = format_endpoint(source.address.as_str(), source.port as u32);
                let t = Task::PullClient { address };
                proof {
                    lemma_task_views_push(tasks@, t);
                }
                tasks.push(t);
                hub.set_rtmp_pull_enabled(true);
            }
        }
        let address = format_endpoint("0.0.0.0", config.listen_port());
        let t = Task::RtmpServer { address };
        proof {
            lemma_task_views_push(tasks@, t);
        }
        tasks.push(t);
    }
}

} // verus!
