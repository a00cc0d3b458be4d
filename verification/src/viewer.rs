//! The viewer's state: the devices and streams that the chart can show,
//! the streams chosen as axes, the connection's condition, the active tab,
//! and the state tab.
use vstd::prelude::*;
use crate::text::owned;
use crate::sort::{sort_by_name, sort_by_name_spec, named_view, lemma_sort_by_name};
use crate::text::seq_le;
use crate::state::{StateTab, strs, fresh_tab, default_output_spec};
use crate::transport::TransportType;

verus! {

/// The tab on screen.
#[derive(Debug, PartialEq, Eq, Structural, Clone, Copy)]
pub enum TabView {
    Chart,
    State,
}

/// The other tab.
pub open spec fn other_tab(t: TabView) -> TabView {
    match t {
        TabView::Chart => TabView::State,
        TabView::State => TabView::Chart,
    }
}

/// Switching tabs twice comes back to the same tab.
pub proof fn lemma_switch_tab_twice(t: TabView)
    ensures
        other_tab(other_tab(t)) == t,
        other_tab(t) != t,
{
}

/// A stream of a device, by position in the device list and in the
/// device's stream list.
#[derive(Debug, PartialEq, Eq, Structural, Clone, Copy)]
pub struct StreamReference {
    pub device_index: usize,
    pub stream_index: usize,
}

/// What the session's data stream reports: each device's streams, each
/// stream by name with the number of values it holds.
pub struct ServerResponse {
    pub response: Vec<(String, Vec<(String, usize)>)>,
}

/// A device as the chart lists it: its name and its streams' names.
pub struct Device {
    pub name: String,
    pub streams: Vec<String>,
}

/// The names of named items, in order.
pub open spec fn names_of<V>(s: Seq<(Seq<char>, V)>) -> Seq<Seq<char>> {
    Seq::new(s.len(), |i: int| s[i].0)
}

/// The chart's devices hold what a response reports: devices sorted by
/// name, and each device's streams sorted by name.
pub open spec fn devices_match(devs: Seq<Device>, resp: Seq<(String, Vec<(String, usize)>)>) -> bool {
    let sorted = sort_by_name_spec(named_view(resp));
    &&& devs.len() == sorted.len()
    &&& forall|i: int|
        0 <= i < devs.len() ==> (#[trigger] devs[i]).name@ == sorted[i].0 && strs(devs[i].streams@)
            == names_of(sort_by_name_spec(named_view(sorted[i].1)))
}

/// The viewer.
pub struct App {
    pub devices: Vec<Device>,
    /// The selected device.
    pub devices_state: Option<usize>,
    /// The selected stream of the selected device.
    pub streams_state: Option<usize>,
    pub x_axis_stream: Option<StreamReference>,
    pub y_axis_stream: Option<StreamReference>,
    pub transport_type: TransportType,
    /// Whether the last exchange with the session went through.
    pub connection_status: bool,
    pub current_device_streams: Vec<String>,
    pub show_popup: bool,
    pub session_running: bool,
    pub has_warned_disconnected: bool,
    pub active_tab: TabView,
    pub state_tab: StateTab,
    pub should_quit: bool,
    pub in_rerun: bool,
}

/// Whether `p` occurs in `s`.
pub open spec fn contains_text(s: Seq<char>, p: Seq<char>) -> bool {
    exists|i: int| 0 <= i && i + p.len() <= s.len() && #[trigger] s.subrange(i, i + p.len()) == p
}

/// `str::contains` with a string pattern.
pub fn text_contains(s: &str, p: &str) -> (r: bool)
    ensures
        r == contains_text(s@, p@),
{
    let ls = s.unicode_len();
    let lp = p.unicode_len();
    if lp > ls {
        proof {
            assert forall|i: int| 0 <= i && i + p@.len() <= s@.len() implies #[trigger] s@.subrange(
                i,
                i + p@.len(),
            ) != p@ by {}
        }
        return false;
    }
    let mut i: usize = 0;
    while i <= ls - lp
        invariant
            ls == s@.len(),
            lp == p@.len(),
            lp <= ls,
            i <= ls - lp + 1,
            forall|k: int| 0 <= k < i ==> #[trigger] s@.subrange(k, k + lp) != p@,
        decreases ls - lp + 1 - i,
    {
        let mut j: usize = 0;
        let mut same = true;
        while j < lp
            invariant
                ls == s@.len(),
                lp == p@.len(),
                i + lp <= ls,
                j <= lp,
                same == (forall|k: int| 0 <= k < j ==> s@[i + k] == p@[k]),
            decreases lp - j,
        {
            if s.get_char(i + j) != p.get_char(j) {
                same = false;
            }
            j = j + 1;
        }
        if same {
            assert(s@.subrange(i as int, i + lp) =~= p@);
            return true;
        }
        assert(s@.subrange(i as int, i + lp)[0] == s@[i as int] || lp == 0);
        proof {
            let k = choose|k: int| 0 <= k < lp && s@[i + k] != p@[k];
            assert(s@.subrange(i as int, i + lp)[k] != p@[k]);
        }
        i = i + 1;
    }
    proof {
        assert forall|k: int| 0 <= k && k + p@.len() <= s@.len() implies #[trigger] s@.subrange(
            k,
            k + p@.len(),
        ) != p@ by {
            assert(k < i);
        }
    }
    false
}

fn copy_names(v: &Vec<String>) -> (r: Vec<String>)
    ensures
        r@ == v@,
{
    let mut r: Vec<String> = Vec::new();
    let mut i: usize = 0;
    while i < v.len()
        invariant
            i <= v@.len(),
            r@ == v@.take(i as int),
        decreases v@.len() - i,
    {
        r.push(v[i].clone());
        assert(r@ =~= v@.take(i + 1));
        i = i + 1;
    }
    assert(v@.take(v@.len() as int) =~= v@);
    r
}

/// The chart's devices for a response: sorted by name, each with its
/// streams' names sorted.
pub fn devices_from_response(resp: ServerResponse) -> (r: Vec<Device>)
    ensures
        devices_match(r@, resp.response@),
{
    let mut devs = resp.response;
    let ghost orig = devs@;
    sort_by_name(&mut devs);
    let ghost sorted = sort_by_name_spec(named_view(orig));
    assert(named_view(devs@) == sorted);
    let mut out: Vec<Device> = Vec::new();
    let mut i: usize = 0;
    while i < devs.len()
        invariant
            named_view(devs@) == sorted,
            i <= devs@.len(),
            out@.len() == i,
            forall|k: int|
                0 <= k < i ==> (#[trigger] out@[k]).name@ == sorted[k].0 && strs(out@[k].streams@)
                    == names_of(sort_by_name_spec(named_view(sorted[k].1))),
        decreases devs@.len() - i,
    {
        let mut pairs: Vec<(String, usize)> = Vec::new();
        let mut j: usize = 0;
        while j < devs[i].1.len()
            invariant
                i < devs@.len(),
                j <= devs@[i as int].1@.len(),
                pairs@.len() == j,
                named_view(pairs@) == named_view(devs@[i as int].1@).take(j as int),
            decreases devs@[i as int].1@.len() - j,
        {
            let name = devs[i].1[j].0.clone();
            let count = devs[i].1[j].1;
            let ghost item = devs@[i as int].1@[j as int];
            assert(name@ == item.0@ && count == item.1);
            let ghost prev = pairs@;
            pairs.push((name, count));
            assert(pairs@ == prev.push((name, count)));
            assert(named_view(devs@[i as int].1@)[j as int] == (item.0@, item.1));
            assert forall|k: int| 0 <= k < j + 1 implies #[trigger] named_view(pairs@)[k]
                == named_view(devs@[i as int].1@)[k] by {
                if k < j {
                    assert(named_view(prev)[k] == named_view(devs@[i as int].1@).take(j as int)[k]);
                }
            }
            assert(named_view(pairs@) =~= named_view(devs@[i as int].1@).take(j + 1));
            j = j + 1;
        }
        assert(named_view(devs@[i as int].1@).take(j as int) =~= named_view(devs@[i as int].1@));
        let ghost before = named_view(pairs@);
        sort_by_name(&mut pairs);
        let ghost want = sort_by_name_spec(before);
        let mut names: Vec<String> = Vec::new();
        let mut k: usize = 0;
        while k < pairs.len()
            invariant
                named_view(pairs@) == want,
                k <= pairs@.len(),
                names@.len() == k,
                forall|m: int| 0 <= m < k ==> (#[trigger] names@[m])@ == want[m].0,
            decreases pairs@.len() - k,
        {
            assert(want[k as int].0 == pairs@[k as int].0@);
            names.push(pairs[k].0.clone());
            k = k + 1;
        }
        assert(strs(names@) =~= names_of(want));
        assert(sorted[i as int].1 == devs@[i as int].1@);
        out.push(Device { name: devs[i].0.clone(), streams: names });
        i = i + 1;
    }
    out
}

/// The chart lists devices in name order, each device's streams in name
/// order, and every device the response reported.
pub proof fn lemma_devices_sorted(devs: Seq<Device>, resp: Seq<(String, Vec<(String, usize)>)>)
    requires
        devices_match(devs, resp),
    ensures
        devs.len() == resp.len(),
        forall|i: int, j: int|
            0 <= i < j < devs.len() ==> seq_le(#[trigger] devs[i].name@, #[trigger] devs[j].name@),
{
    let sorted = sort_by_name_spec(named_view(resp));
    lemma_sort_by_name(named_view(resp));
    assert forall|i: int, j: int| 0 <= i < j < devs.len() implies seq_le(
        #[trigger] devs[i].name@,
        #[trigger] devs[j].name@,
    ) by {
        assert(devs[i].name@ == sorted[i].0);
        assert(devs[j].name@ == sorted[j].0);
    }
}

/// A chart with nothing selected or it may be moved from.
pub open spec fn device_row_ok(app: App) -> bool {
    app.devices_state is Some ==> app.devices@.len() > 0
}

impl App {
    /// The viewer as it starts: no data, the chart on screen, the
    /// connection taken as good, and an empty state tab whose new runs
    /// go to the directory that `choose_default_output` picks from
    /// `allowed_output_dirs` and `current_dir`.
    pub fn new(
        remote: bool,
        transport_type: TransportType,
        allowed_output_dirs: Option<Vec<String>>,
        current_dir: Option<String>,
    ) -> (r: App)
        ensures
            r.state_tab.wf(),
            r.devices@.len() == 0,
            r.devices_state == Some(0usize),
            r.streams_state is None,
            r.x_axis_stream is None,
            r.y_axis_stream is None,
            r.transport_type == transport_type,
            r.connection_status,
            r.current_device_streams@.len() == 0,
            !r.show_popup && !r.session_running && !r.has_warned_disconnected,
            r.active_tab == TabView::Chart,
            !r.should_quit && !r.in_rerun,
            fresh_tab(r.state_tab, remote, default_output_spec(remote, allowed_output_dirs, current_dir)),
    {
        App {
            devices: Vec::new(),
            devices_state: Some(0),
            streams_state: None,
            x_axis_stream: None,
            y_axis_stream: None,
            transport_type,
            connection_status: true,
            current_device_streams: Vec::new(),
            show_popup: false,
            session_running: false,
            has_warned_disconnected: false,
            active_tab: TabView::Chart,
            state_tab: StateTab::new(remote, allowed_output_dirs, current_dir),
            should_quit: false,
            in_rerun: false,
        }
    }

    /// Forgets the chart's data and selections.
    pub fn clear_chart_state(&mut self)
        ensures
            clear_chart_post(*old(self), *final(self)),
    {
        self.x_axis_stream = None;
        self.y_axis_stream = None;
        self.devices = Vec::new();
        self.devices_state = None;
        self.streams_state = None;
        self.current_device_streams = Vec::new();
    }

    /// Takes in a failed exchange with the session. A missing session (the
    /// message names it, or a 502) is expected: the connection is marked
    /// down and the warning given once. Any other failure marks the
    /// connection down and the warning as given.
    pub fn handle_transport_error(&mut self, message: &str)
        ensures
            transport_error_post(*old(self), *final(self), message@),
    {
        let was_connected = self.connection_status;
        if text_contains(message, "No active session") || text_contains(message, "502") {
            self.connection_status = false;
            if was_connected && !self.has_warned_disconnected {
                self.has_warned_disconnected = true;
            }
            return ;
        }
        self.connection_status = false;
        self.has_warned_disconnected = true;
    }

    /// Lists the streams of the selected device and selects the first; a
    /// selection past the devices empties the list.
    pub fn update_current_device_streams(&mut self)
        ensures
            stream_list_post(*old(self), *final(self)),
    {
        if let Some(d) = self.devices_state {
            if d < self.devices.len() {
                let names = copy_names(&self.devices[d].streams);
                let n = names.len();
                self.current_device_streams = names;
                self.streams_state = if n > 0 {
                    Some(0)
                } else {
                    None
                };
            } else {
                self.current_device_streams = Vec::new();
                self.streams_state = None;
            }
        }
    }

    /// Selects the next device, wrapping to the first, and lists its
    /// streams.
    pub fn next_device(&mut self)
        requires
            device_row_ok(*old(self)),
        ensures
            next_device_post(*old(self), *final(self)),
    {
        let i = match self.devices_state {
            Some(i) => {
                if i >= self.devices.len() - 1 {
                    0
                } else {
                    i + 1
                }
            },
            None => 0,
        };
        self.devices_state = Some(i);
        self.update_current_device_streams();
    }

    /// Selects the previous device, wrapping to the last, and lists its
    /// streams.
    pub fn previous_device(&mut self)
        requires
            old(self).devices_state == Some(0usize) ==> old(self).devices@.len() > 0,
        ensures
            previous_device_post(*old(self), *final(self)),
    {
        let i = match self.devices_state {
            Some(i) => {
                if i == 0 {
                    self.devices.len() - 1
                } else {
                    i - 1
                }
            },
            None => 0,
        };
        self.devices_state = Some(i);
        self.update_current_device_streams();
    }

    /// Selects the next stream of the selected device, wrapping to the
    /// first.
    pub fn next_stream(&mut self)
        requires
            old(self).devices_state matches Some(d) ==> d < old(self).devices@.len(),
        ensures
            next_stream_post(*old(self), *final(self)),
    {
        if let Some(d) = self.devices_state {
            let n = self.devices[d].streams.len();
            if n == 0 {
                return ;
            }
            let i = match self.streams_state {
                Some(i) => {
                    if i >= n - 1 {
                        0
                    } else {
                        i + 1
                    }
                },
                None => 0,
            };
            self.streams_state = Some(i);
        }
    }

    /// Selects the previous stream of the selected device, wrapping to the
    /// last.
    pub fn previous_stream(&mut self)
        requires
            old(self).devices_state matches Some(d) ==> d < old(self).devices@.len(),
        ensures
            previous_stream_post(*old(self), *final(self)),
    {
        if let Some(d) = self.devices_state {
            let n = self.devices[d].streams.len();
            if n == 0 {
                return ;
            }
            let i = match self.streams_state {
                Some(i) => {
                    if i == 0 {
                        n - 1
                    } else {
                        i - 1
                    }
                },
                None => 0,
            };
            self.streams_state = Some(i);
        }
    }

    /// Puts the selected stream on the X axis.
    pub fn set_x_axis(&mut self)
        requires
            axis_ok(*old(self)),
        ensures
            set_x_axis_post(*old(self), *final(self)),
    {
        if let Some(d) = self.devices_state {
            if let Some(s) = self.streams_state {
                self.x_axis_stream = Some(StreamReference { device_index: d, stream_index: s });
                return ;
            }
        }
    }

    /// Puts the selected stream on the Y axis.
    pub fn set_y_axis(&mut self)
        requires
            axis_ok(*old(self)),
        ensures
            set_y_axis_post(*old(self), *final(self)),
    {
        if let Some(d) = self.devices_state {
            if let Some(s) = self.streams_state {
                self.y_axis_stream = Some(StreamReference { device_index: d, stream_index: s });
                return ;
            }
        }
    }

    /// Shows the other tab.
    pub fn switch_tab(&mut self)
        ensures
            switch_tab_post(*old(self), *final(self)),
    {
        self.active_tab = match self.active_tab {
            TabView::Chart => TabView::State,
            TabView::State => TabView::Chart,
        };
    }
}

/// The stream list of `new` is what listing the streams of the device
/// selected in `old` gives.
pub open spec fn stream_list_follows(new: App, old: App) -> bool {
    match old.devices_state {
        None => new == old,
        Some(d) => if d < old.devices@.len() {
            let names = old.devices@[d as int].streams@;
            &&& new.current_device_streams@ == names
            &&& new == (App {
                current_device_streams: new.current_device_streams,
                streams_state: if names.len() > 0 {
                    Some(0usize)
                } else {
                    None
                },
                ..old
            })
        } else {
            &&& new.current_device_streams@.len() == 0
            &&& new == (App {
                current_device_streams: new.current_device_streams,
                streams_state: None,
                ..old
            })
        },
    }
}

/// The selected stream names an existing device and stream (as the
/// viewer's log line about a new axis reads them).
pub open spec fn axis_ok(app: App) -> bool {
    app.devices_state is Some && app.streams_state is Some ==> {
        let d = app.devices_state->Some_0;
        &&& d < app.devices@.len()
        &&& app.streams_state->Some_0 < app.devices@[d as int].streams@.len()
    }
}

/// An axis after choosing the selected stream for it: that stream, when a
/// device and a stream are selected; else the axis as it was.
pub open spec fn axis_after(app: App, axis: Option<StreamReference>) -> Option<StreamReference> {
    if app.devices_state is Some && app.streams_state is Some {
        Some(
            StreamReference {
                device_index: app.devices_state->Some_0,
                stream_index: app.streams_state->Some_0,
            },
        )
    } else {
        axis
    }
}


/// What `clear_chart_state` does to the viewer.
pub open spec fn clear_chart_post(old: App, new: App) -> bool {
    &&& new == (App {
        devices: new.devices,
        devices_state: None,
        streams_state: None,
        x_axis_stream: None,
        y_axis_stream: None,
        current_device_streams: new.current_device_streams,
        ..old
    })
    &&& new.devices@.len() == 0
    &&& new.current_device_streams@.len() == 0
}

/// What `handle_transport_error` does to the viewer.
pub open spec fn transport_error_post(old: App, new: App, message: Seq<char>) -> bool {
    &&& new == (App {
        connection_status: false,
        has_warned_disconnected: if contains_text(message, "No active session"@)
            || contains_text(message, "502"@) {
            old.has_warned_disconnected || old.connection_status
        } else {
            true
        },
        ..old
    })
}

/// What `update_current_device_streams` does to the viewer.
pub open spec fn stream_list_post(old: App, new: App) -> bool {
    &&& match old.devices_state {
        None => new == old,
        Some(d) => if d < old.devices@.len() {
            let names = old.devices@[d as int].streams@;
            &&& new.current_device_streams@ == names
            &&& new == (App {
                current_device_streams: new.current_device_streams,
                streams_state: if names.len() > 0 {
                    Some(0usize)
                } else {
                    None
                },
                ..old
            })
        } else {
            &&& new.current_device_streams@.len() == 0
            &&& new == (App {
                current_device_streams: new.current_device_streams,
                streams_state: None,
                ..old
            })
        },
    }
}

/// What `next_device` does to the viewer.
pub open spec fn next_device_post(old: App, new: App) -> bool {
    &&& ({
        let i: usize = match old.devices_state {
            Some(i) => if i >= old.devices@.len() - 1 {
                0usize
            } else {
                (i + 1) as usize
            },
            None => 0usize,
        };
        &&& new.devices_state == Some(i)
        &&& new.devices == old.devices
        &&& stream_list_follows(new, App { devices_state: Some(i), ..old })
    })
}

/// What `previous_device` does to the viewer.
pub open spec fn previous_device_post(old: App, new: App) -> bool {
    &&& ({
        let i: usize = match old.devices_state {
            Some(i) => if i == 0 {
                (old.devices@.len() - 1) as usize
            } else {
                (i - 1) as usize
            },
            None => 0usize,
        };
        &&& new.devices_state == Some(i)
        &&& new.devices == old.devices
        &&& stream_list_follows(new, App { devices_state: Some(i), ..old })
    })
}

/// What `next_stream` does to the viewer.
pub open spec fn next_stream_post(old: App, new: App) -> bool {
    &&& ({
        match old.devices_state {
            None => new == old,
            Some(d) => {
                let n = old.devices@[d as int].streams@.len();
                if n == 0 {
                    new == old
                } else {
                    new == (App {
                        streams_state: Some(
                            match old.streams_state {
                                Some(i) => if i >= n - 1 {
                                    0usize
                                } else {
                                    (i + 1) as usize
                                },
                                None => 0usize,
                            },
                        ),
                        ..old
                    })
                }
            },
        }
    })
}

/// What `previous_stream` does to the viewer.
pub open spec fn previous_stream_post(old: App, new: App) -> bool {
    &&& ({
        match old.devices_state {
            None => new == old,
            Some(d) => {
                let n = old.devices@[d as int].streams@.len();
                if n == 0 {
                    new == old
                } else {
                    new == (App {
                        streams_state: Some(
                            match old.streams_state {
                                Some(i) => if i == 0 {
                                    (n - 1) as usize
                                } else {
                                    (i - 1) as usize
                                },
                                None => 0usize,
                            },
                        ),
                        ..old
                    })
                }
            },
        }
    })
}

/// Moving to the next stream and back, or back and then on, returns to
/// the stream that was selected: `previous_stream` undoes `next_stream`
/// and the other way round, for every selected stream of a device that
/// has streams.
pub proof fn lemma_stream_moves_undo(a: App, b: App, c: App, b2: App, c2: App)
    requires
        a.devices_state is Some,
        a.devices_state->Some_0 < a.devices@.len(),
        a.devices@[a.devices_state->Some_0 as int].streams@.len() > 0,
        a.streams_state is Some,
        a.streams_state->Some_0 < a.devices@[a.devices_state->Some_0 as int].streams@.len(),
        next_stream_post(a, b),
        previous_stream_post(b, c),
        previous_stream_post(a, b2),
        next_stream_post(b2, c2),
    ensures
        c == a,
        c2 == a,
        b.streams_state != a.streams_state || a.devices@[a.devices_state->Some_0 as int].streams@.len() == 1,
{
    let d = a.devices_state->Some_0;
    let n = a.devices@[d as int].streams@.len();
    let i = a.streams_state->Some_0;
    assert(a.devices@[d as int].streams.len() == n);
    let j: usize = if i >= n - 1 { 0usize } else { (i + 1) as usize };
    assert(b == App { streams_state: Some(j), ..a });
    assert(b.devices_state == a.devices_state && b.devices == a.devices);
    assert(b.devices@[d as int].streams@.len() == n);
    let back: usize = if j == 0 { (n - 1) as usize } else { (j - 1) as usize };
    if i >= n - 1 {
        assert(i == n - 1);
        assert(j == 0);
        assert(back == i);
    } else {
        assert(j == i + 1);
        assert(back == i);
    }
    assert(c == App { streams_state: Some(back), ..b });
    let j2: usize = if i == 0 { (n - 1) as usize } else { (i - 1) as usize };
    assert(b2 == App { streams_state: Some(j2), ..a });
    assert(b2.devices_state == a.devices_state && b2.devices == a.devices);
    assert(b2.devices@[d as int].streams@.len() == n);
    let on: usize = if j2 >= n - 1 { 0usize } else { (j2 + 1) as usize };
    if i == 0 {
        assert(j2 == n - 1);
        assert(on == i);
    } else {
        assert(j2 == i - 1);
        assert(on == i);
    }
    assert(c2 == App { streams_state: Some(on), ..b2 });
}

/// Moving to the next device and back, or back and then on, returns to
/// the device that was selected.
pub proof fn lemma_device_moves_undo(a: App, b: App, c: App, b2: App, c2: App)
    requires
        a.devices_state is Some,
        a.devices_state->Some_0 < a.devices@.len(),
        next_device_post(a, b),
        previous_device_post(b, c),
        previous_device_post(a, b2),
        next_device_post(b2, c2),
    ensures
        c.devices_state == a.devices_state,
        c2.devices_state == a.devices_state,
{
    let n = a.devices@.len();
    let i = a.devices_state->Some_0;
    assert(a.devices.len() == n);
    assert(b.devices@.len() == n);
    assert(b2.devices@.len() == n);
    let j: usize = if i >= n - 1 { 0usize } else { (i + 1) as usize };
    assert(b.devices_state == Some(j));
    let j2: usize = if i == 0 { (n - 1) as usize } else { (i - 1) as usize };
    assert(b2.devices_state == Some(j2));
    if i >= n - 1 {
        assert(j == 0);
        assert(c.devices_state == Some((n - 1) as usize));
    } else {
        assert(j == i + 1);
        assert(c.devices_state == Some((j - 1) as usize));
    }
    if i == 0 {
        assert(j2 == n - 1);
    } else {
        assert(j2 == i - 1);
    }
}

/// What `set_x_axis` does to the viewer.
pub open spec fn set_x_axis_post(old: App, new: App) -> bool {
    &&& new == (App {
        x_axis_stream: axis_after(old, old.x_axis_stream),
        ..old
    })
}

/// What `set_y_axis` does to the viewer.
pub open spec fn set_y_axis_post(old: App, new: App) -> bool {
    &&& new == (App {
        y_axis_stream: axis_after(old, old.y_axis_stream),
        ..old
    })
}

/// What `switch_tab` does to the viewer.
pub open spec fn switch_tab_post(old: App, new: App) -> bool {
    &&& new == (App { active_tab: other_tab(old.active_tab), ..old })
}

} // verus!
