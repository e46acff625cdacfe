//! The decisions of the `displayd` daemon: monitor identities, the cache of known
//! monitors, which monitor is the default, DRM connector names, hotplug changes and
//! the commands that clients send.
use vstd::prelude::*;
use vstd::string::StrSliceExecFns;
use crate::edid::parse::EdidData;

verus! {

/// The identity of a monitor, from its EDID.
#[derive(Debug)]
pub struct MonitorId {
    pub manufacturer: String,
    pub product: u16,
    pub serial: Option<u32>,
}

impl MonitorId {
    /// The identity that an EDID gives: manufacturer id, product code and serial number.
    pub fn from_edid(edid: &EdidData) -> (id: Self)
        ensures
            id.manufacturer@ == edid.id@,
            id.product == edid.product_code,
            id.serial == Some(edid.serial_number),
    {
        Self { manufacturer: edid.id.clone(), product: edid.product_code, serial: Some(edid.serial_number) }
    }
}

/// A monitor as the daemon remembers it between runs.
#[derive(Debug)]
pub struct CachedMonitor {
    pub connector: String,
    pub path: std::path::PathBuf,
    pub default: bool,
}

/// An optional text, taken by its characters.
pub open spec fn text_of(text: Option<String>) -> Option<Seq<char>> {
    match text {
        Some(s) => Some(s@),
        None => None,
    }
}

/// The texts of a list of strings.
pub open spec fn texts(list: Seq<String>) -> Seq<Seq<char>> {
    list.map_values(|s: String| s@)
}

/// The connector of the first cached monitor marked as the default, from index `i` on.
pub open spec fn first_default_from(cached: Seq<CachedMonitor>, i: int) -> Option<Seq<char>>
    decreases cached.len() - i,
{
    if i < 0 || i >= cached.len() {
        None
    } else if cached[i].default {
        Some(cached[i].connector@)
    } else {
        first_default_from(cached, i + 1)
    }
}

/// The connector of the first cached monitor marked as the default.
pub open spec fn first_default(cached: Seq<CachedMonitor>) -> Option<Seq<char>> {
    first_default_from(cached, 0)
}

proof fn lemma_first_default_from(cached: Seq<CachedMonitor>, i: int) -> (index: Option<int>)
    requires
        0 <= i <= cached.len(),
    ensures
        match index {
            Some(k) => {
                &&& i <= k < cached.len()
                &&& cached[k].default
                &&& forall|j: int| i <= j < k ==> !(#[trigger] cached[j]).default
                &&& first_default_from(cached, i) == Some(cached[k].connector@)
            },
            None => {
                &&& forall|j: int| i <= j < cached.len() ==> !(#[trigger] cached[j]).default
                &&& first_default_from(cached, i) == None::<Seq<char>>
            },
        },
    decreases cached.len() - i,
{
    if i >= cached.len() {
        None
    } else if cached[i].default {
        Some(i)
    } else {
        lemma_first_default_from(cached, i + 1)
    }
}

/// The default that the cache names is that of the first cached monitor marked as
/// the default (the returned index); when none is marked, there is none.
pub proof fn law_first_marked_default(cached: Seq<CachedMonitor>) -> (index: Option<int>)
    ensures
        match index {
            Some(k) => {
                &&& 0 <= k < cached.len()
                &&& cached[k].default
                &&& forall|j: int| 0 <= j < k ==> !(#[trigger] cached[j]).default
                &&& first_default(cached) == Some(cached[k].connector@)
            },
            None => {
                &&& forall|j: int| 0 <= j < cached.len() ==> !(#[trigger] cached[j]).default
                &&& first_default(cached) == None::<Seq<char>>
            },
        },
{
    lemma_first_default_from(cached, 0)
}

/// The default monitor that the cache names.
pub fn cached_default(cached: &Vec<CachedMonitor>) -> (default: Option<String>)
    ensures
        text_of(default) == first_default(cached@),
{
    let mut i: usize = 0;
    while i < cached.len()
        invariant
            i <= cached.len(),
            first_default(cached@) == first_default_from(cached@, i as int),
        decreases cached.len() - i,
    {
        if cached[i].default {
            return Some(cached[i].connector.clone());
        }
        i = i + 1;
    }
    None
}

/// The default monitor after discovery: the cached default while it is among the
/// monitors found, else the first of them (they come sorted by connector), else none.
pub open spec fn chosen_default(cached: Option<Seq<char>>, connectors: Seq<Seq<char>>) -> Option<Seq<char>> {
    match cached {
        Some(c) if connectors.contains(c) => Some(c),
        _ => if connectors.len() > 0 { Some(connectors[0]) } else { None },
    }
}

/// The default chosen after discovery is one of the monitors found, and there is one
/// whenever a monitor was found.
pub proof fn law_default_is_found_monitor(cached: Option<Seq<char>>, connectors: Seq<Seq<char>>)
    ensures
        chosen_default(cached, connectors) matches Some(d) ==> connectors.contains(d),
        chosen_default(cached, connectors).is_none() <==> connectors.len() == 0,
{
    if connectors.len() > 0 {
        assert(connectors.contains(connectors[0]));
    }
}

/// The monitors and the default fit together: the default is one of the monitors,
/// and there is a default whenever there is a monitor.
pub open spec fn default_fits(monitors: Seq<Seq<char>>, default: Option<Seq<char>>) -> bool {
    &&& default matches Some(d) ==> monitors.contains(d)
    &&& monitors.len() > 0 ==> default.is_some()
}

/// A missing default becomes the first monitor; a present one stays.
pub open spec fn default_when_missing(default: Option<Seq<char>>, monitors: Seq<Seq<char>>) -> Option<Seq<char>> {
    if default.is_some() {
        default
    } else if monitors.len() > 0 {
        Some(monitors[0])
    } else {
        None
    }
}

/// Removing what is no longer `connected` from `existing` (leaving `remaining`) and
/// replacing a removed default keeps the default fitting the monitors; adding
/// connected monitors (`added`, giving `monitors`) and filling a missing default
/// keeps it fitting too, and keeps only connected monitors.
proof fn lemma_hotplug_round(
    existing: Seq<Seq<char>>,
    default: Option<Seq<char>>,
    connected: Seq<Seq<char>>,
    remaining: Seq<Seq<char>>,
    added: Seq<Seq<char>>,
    monitors: Seq<Seq<char>>,
)
    requires
        default_fits(existing, default),
        forall|c: Seq<char>| remaining.contains(c) <==> (existing.contains(c) && connected.contains(c)),
        forall|c: Seq<char>| added.contains(c) ==> connected.contains(c),
        forall|c: Seq<char>| monitors.contains(c) <==> (remaining.contains(c) || added.contains(c)),
    ensures
        default_fits(remaining, default_after_removal_spec(default, gone(existing, connected), remaining)),
        forall|c: Seq<char>| monitors.contains(c) ==> connected.contains(c),
        default_fits(
            monitors,
            default_when_missing(
                default_after_removal_spec(default, gone(existing, connected), remaining),
                monitors,
            ),
        ),
{
    let removed = gone(existing, connected);
    let after = default_after_removal_spec(default, removed, remaining);
    if remaining.len() > 0 {
        assert(remaining.contains(remaining[0]));
    }
    if monitors.len() > 0 {
        assert(monitors.contains(monitors[0]));
    }
    match default {
        Some(d) => {
            law_removed_are_known_and_gone(existing, connected, d);
            if !removed.contains(d) {
                assert(remaining.contains(d));
            }
        },
        None => {
            if remaining.len() > 0 {
                assert(existing.contains(remaining[0]));
            }
        },
    }
}

/// Whether `list` holds a string with the text of `text`.
pub fn contains_text(list: &Vec<String>, text: &String) -> (found: bool)
    ensures
        found == texts(list@).contains(text@),
{
    let mut i: usize = 0;
    while i < list.len()
        invariant
            i <= list.len(),
            forall|j: int| 0 <= j < i ==> list@[j]@ != text@,
        decreases list.len() - i,
    {
        if list[i] == *text {
            assert(texts(list@)[i as int] == text@);
            return true;
        }
        i = i + 1;
    }
    assert(!texts(list@).contains(text@)) by {
        if texts(list@).contains(text@) {
            let j = choose|j: int| 0 <= j < texts(list@).len() && texts(list@)[j] == text@;
            assert(list@[j]@ == text@);
        }
    }
    false
}

/// The first string of a list, copied.
fn first_of(list: &Vec<String>) -> (first: Option<String>)
    ensures
        list@.len() > 0 ==> text_of(first) == Some(list@[0]@),
        list@.len() == 0 ==> first.is_none(),
{
    if list.len() > 0 {
        Some(list[0].clone())
    } else {
        None
    }
}

/// Chooses the default monitor among the connectors found, sorted by name.
pub fn choose_default(cached: Option<String>, connectors: &Vec<String>) -> (default: Option<String>)
    ensures
        text_of(default) == chosen_default(text_of(cached), texts(connectors@)),
{
    match cached {
        Some(c) => {
            if contains_text(connectors, &c) {
                Some(c)
            } else {
                first_of(connectors)
            }
        },
        None => first_of(connectors),
    }
}

/// The cache entry of a monitor: marked as the default when its connector is the default.
pub fn cache_entry(connector: String, path: std::path::PathBuf, default_monitor: &Option<String>) -> (entry: CachedMonitor)
    ensures
        entry.connector@ == connector@,
        entry.path == path,
        entry.default == (text_of(*default_monitor) == Some(connector@)),
{
    let default = match default_monitor {
        Some(d) => *d == connector,
        None => false,
    };
    CachedMonitor { connector, path, default }
}

/// The index of the first '-' in a text, or its length when it holds none.
pub open spec fn dash_index(text: Seq<char>) -> int
    decreases text.len(),
{
    if text.len() == 0 {
        0
    } else if text[0] == '-' {
        0
    } else {
        1 + dash_index(text.drop_first())
    }
}

/// The connector that a DRM directory name such as `card1-DP-2` stands for: the
/// name must start with `card`, and the connector is what follows the first '-'
/// after that.
pub open spec fn drm_connector(name: Seq<char>) -> Option<Seq<char>> {
    if name.len() >= 4 && name.take(4) == seq!['c', 'a', 'r', 'd'] {
        let rest = name.skip(4);
        let i = dash_index(rest);
        if i < rest.len() {
            Some(rest.skip(i + 1))
        } else {
            None
        }
    } else {
        None
    }
}

proof fn lemma_dash_index_bound(text: Seq<char>)
    ensures
        0 <= dash_index(text) <= text.len(),
        dash_index(text) < text.len() ==> text[dash_index(text)] == '-',
    decreases text.len(),
{
    if text.len() > 0 && text[0] != '-' {
        lemma_dash_index_bound(text.drop_first());
    }
}

/// A text ends at its first '-' when the part before holds none.
proof fn lemma_dash_index_of_split(head: Seq<char>, tail: Seq<char>)
    requires
        forall|i: int| 0 <= i < head.len() ==> head[i] != '-',
    ensures
        dash_index(head + seq!['-'] + tail) == head.len(),
        dash_index(head) == head.len(),
    decreases head.len(),
{
    let whole = head + seq!['-'] + tail;
    if head.len() == 0 {
        assert(whole[0] == '-');
    } else {
        let rest = head.drop_first();
        assert forall|i: int| 0 <= i < rest.len() implies rest[i] != '-' by {
            assert(rest[i] == head[i + 1]);
        }
        lemma_dash_index_of_split(rest, tail);
        assert(whole[0] == head[0]);
        assert(whole.drop_first() == rest + seq!['-'] + tail);
    }
}

/// A DRM directory name `card` + a part without '-' + '-' + a connector stands for
/// that connector, whatever it holds; a name that does not start with `card`, or
/// that holds no '-' after it, stands for none.
pub proof fn law_drm_connector_after_first_dash(card: Seq<char>, connector: Seq<char>, name: Seq<char>)
    requires
        forall|i: int| 0 <= i < card.len() ==> card[i] != '-',
    ensures
        drm_connector(seq!['c', 'a', 'r', 'd'] + card + seq!['-'] + connector) == Some(connector),
        drm_connector(seq!['c', 'a', 'r', 'd'] + card) == None::<Seq<char>>,
        !(name.len() >= 4 && name[0] == 'c' && name[1] == 'a' && name[2] == 'r' && name[3] == 'd')
            ==> drm_connector(name) == None::<Seq<char>>,
{
    let prefix = seq!['c', 'a', 'r', 'd'];
    let whole = prefix + card + seq!['-'] + connector;
    lemma_dash_index_of_split(card, connector);
    assert(whole.take(4) =~= prefix);
    assert(whole.skip(4) =~= card + seq!['-'] + connector);
    assert((card + seq!['-'] + connector).skip(card.len() as int + 1) =~= connector);
    let short = prefix + card;
    assert(short.take(4) =~= prefix);
    assert(short.skip(4) =~= card);
    if name.len() >= 4 && name.take(4) == prefix {
        assert(name[0] == name.take(4)[0]);
        assert(name[1] == name.take(4)[1]);
        assert(name[2] == name.take(4)[2]);
        assert(name[3] == name.take(4)[3]);
    }
}

/// The connector of a DRM directory name, if it names one.
pub fn drm_connector_name(name: &str) -> (connector: Option<String>)
    ensures
        text_of(connector) == drm_connector(name@),
{
    let len = name.unicode_len();
    if len < 4 || name.get_char(0) != 'c' || name.get_char(1) != 'a' || name.get_char(2) != 'r'
        || name.get_char(3) != 'd' {
        proof {
            if name@.len() >= 4 && name@.take(4) == seq!['c', 'a', 'r', 'd'] {
                assert(name@.take(4)[0] == 'c');
                assert(name@.take(4)[1] == 'a');
                assert(name@.take(4)[2] == 'r');
                assert(name@.take(4)[3] == 'd');
            }
        }
        return None;
    }
    assert(name@.take(4) =~= seq!['c', 'a', 'r', 'd']);
    let ghost rest = name@.skip(4);
    let mut i: usize = 4;
    assert(rest.skip(0) == rest);
    while i < len
        invariant
            4 <= i <= len,
            len == name@.len(),
            rest == name@.skip(4),
            name@.take(4) == seq!['c', 'a', 'r', 'd'],
            dash_index(rest) == (i - 4) + dash_index(rest.skip(i - 4)),
        decreases len - i,
    {
        if name.get_char(i) == '-' {
            proof {
                assert(rest.skip(i - 4)[0] == '-');
                lemma_dash_index_bound(rest);
            }
            let connector = name.substring_char(i + 1, len).to_owned();
            assert(dash_index(rest) == i - 4);
            assert(rest.skip(dash_index(rest) + 1) =~= name@.subrange(i + 1, len as int));
            return Some(connector);
        }
        assert(rest.skip(i - 4).drop_first() == rest.skip(i - 4 + 1));
        i = i + 1;
    }
    assert(rest.skip(i - 4).len() == 0);
    None
}

/// The connectors that have gone: known ones that are no longer connected, in order.
pub open spec fn gone(existing: Seq<Seq<char>>, connected: Seq<Seq<char>>) -> Seq<Seq<char>> {
    existing.filter(|c: Seq<char>| !connected.contains(c))
}

/// A removed connector was known and is no longer connected; a known connector that
/// is no longer connected is removed.
pub proof fn law_removed_are_known_and_gone(existing: Seq<Seq<char>>, connected: Seq<Seq<char>>, c: Seq<char>)
    ensures
        gone(existing, connected).contains(c) <==> (existing.contains(c) && !connected.contains(c)),
{
    let pred = |x: Seq<char>| !connected.contains(x);
    if gone(existing, connected).contains(c) {
        existing.lemma_filter_contains_rev(pred, c);
        let i = choose|i: int| 0 <= i < gone(existing, connected).len() && gone(existing, connected)[i] == c;
        existing.lemma_filter_pred(pred, i);
    }
    if existing.contains(c) && !connected.contains(c) {
        let i = choose|i: int| 0 <= i < existing.len() && existing[i] == c;
        existing.lemma_filter_contains(pred, i);
    }
}

/// The known connectors that are no longer connected, in their order.
pub fn removed_connectors(existing: &Vec<String>, connected: &Vec<String>) -> (removed: Vec<String>)
    ensures
        texts(removed@) == gone(texts(existing@), texts(connected@)),
{
    let mut removed: Vec<String> = Vec::new();
    let ghost pred = |c: Seq<char>| !texts(connected@).contains(c);
    let mut i: usize = 0;
    while i < existing.len()
        invariant
            i <= existing.len(),
            pred == (|c: Seq<char>| !texts(connected@).contains(c)),
            texts(removed@) == texts(existing@).take(i as int).filter(pred),
        decreases existing.len() - i,
    {
        let ghost before = removed@;
        reveal_with_fuel(Seq::<_>::filter, 1);
        assert(texts(existing@).take(i as int + 1).drop_last() == texts(existing@).take(i as int));
        if !contains_text(connected, &existing[i]) {
            removed.push(existing[i].clone());
            assert(texts(removed@) == texts(before).push(existing@[i as int]@));
        } else {
            assert(removed@ == before);
        }
        i = i + 1;
    }
    assert(texts(existing@).take(i as int) == texts(existing@));
    removed
}

/// Whether some connected connector is not known yet, so that a discovery is needed.
pub fn needs_discovery(existing: &Vec<String>, connected: &Vec<String>) -> (needed: bool)
    ensures
        needed == exists|i: int|
            0 <= i < connected@.len() && !texts(existing@).contains(#[trigger] connected@[i]@),
{
    let mut i: usize = 0;
    while i < connected.len()
        invariant
            i <= connected.len(),
            forall|j: int| 0 <= j < i ==> texts(existing@).contains(#[trigger] connected@[j]@),
        decreases connected.len() - i,
    {
        if !contains_text(existing, &connected[i]) {
            return true;
        }
        i = i + 1;
    }
    false
}

/// The default after unplugging: a default that was removed is replaced by the first
/// remaining monitor (or none); any other default stays.
pub open spec fn default_after_removal_spec(
    default: Option<Seq<char>>,
    removed: Seq<Seq<char>>,
    remaining: Seq<Seq<char>>,
) -> Option<Seq<char>> {
    match default {
        Some(d) if removed.contains(d) => if remaining.len() > 0 { Some(remaining[0]) } else { None },
        _ => default,
    }
}

/// After unplugging, the default is never one of the removed monitors, provided the
/// monitors left do not include them.
pub proof fn law_default_not_removed(
    default: Option<Seq<char>>,
    removed: Seq<Seq<char>>,
    remaining: Seq<Seq<char>>,
)
    requires
        forall|c: Seq<char>| removed.contains(c) ==> !remaining.contains(c),
    ensures
        default_after_removal_spec(default, removed, remaining) matches Some(d) ==> !removed.contains(d),
{
    if let Some(d) = default {
        if removed.contains(d) && remaining.len() > 0 {
            assert(remaining.contains(remaining[0]));
        }
    }
}

/// The default stays put while its monitor does: a cached default that is among the
/// monitors found is chosen again (else the first monitor found is), a default that
/// was not unplugged stays after an unplug, a default that goes nowhere stays none,
/// and a default present when a monitor is plugged in stays; the first monitor
/// plugged into an empty roster becomes the default.
pub proof fn law_default_stays_while_present(
    d: Seq<char>,
    connectors: Seq<Seq<char>>,
    removed: Seq<Seq<char>>,
    remaining: Seq<Seq<char>>,
    plugged: Seq<char>,
)
    ensures
        connectors.contains(d) ==> chosen_default(Some(d), connectors) == Some(d),
        !connectors.contains(d) && connectors.len() > 0 ==> chosen_default(Some(d), connectors)
            == Some(connectors[0]),
        !removed.contains(d) ==> default_after_removal_spec(Some(d), removed, remaining) == Some(d),
        default_after_removal_spec(None, removed, remaining) == None::<Seq<char>>,
        default_when_missing(Some(d), connectors) == Some(d),
        default_when_missing(None, seq![plugged]) == Some(plugged),
{
}

/// The default monitor after the `removed` connectors were unplugged; `remaining`
/// lists the monitors left, in the order the daemon walks them.
pub fn default_after_removal(default: Option<String>, removed: &Vec<String>, remaining: &Vec<String>) -> (next: Option<String>)
    ensures
        text_of(next) == default_after_removal_spec(text_of(default), texts(removed@), texts(remaining@)),
{
    match default {
        Some(d) => {
            if contains_text(removed, &d) {
                first_of(remaining)
            } else {
                Some(d)
            }
        },
        None => None,
    }
}

/// The monitor that a request names, or the default one; without either the
/// request fails with a message.
pub fn resolve_connector(requested: Option<String>, default: Option<String>) -> (res: Result<String, String>)
    ensures
        requested.is_some() ==> (res matches Ok(c) && c@ == requested.unwrap()@),
        requested.is_none() && default.is_some() ==> (res matches Ok(c) && c@ == default.unwrap()@),
        requested.is_none() && default.is_none() ==> (res matches Err(m) && m@
            == "No default monitor is available"@),
{
    match requested {
        Some(c) => Ok(c),
        None => match default {
            Some(d) => Ok(d),
            None => Err("No default monitor is available".to_owned()),
        },
    }
}

/// What a brightness or contrast request asks of a monitor.
#[derive(Debug, Clone, Copy, PartialEq, Eq, Structural)]
pub enum LevelStep {
    /// Only report the current level.
    Report,
    /// Write this level.
    Write(u16),
    /// Refuse: the level lies above the maximum.
    OutOfRange { maximum: u16 },
}

/// The step for a request that may carry a new level: none reports, a level up to the
/// maximum is written, a level above it is refused.
pub fn level_step(value: Option<u16>, maximum: u16) -> (step: LevelStep)
    ensures
        value.is_none() ==> step == LevelStep::Report,
        value.is_some() && value.unwrap() <= maximum ==> step == LevelStep::Write(value.unwrap()),
        value.is_some() && value.unwrap() > maximum ==> step == (LevelStep::OutOfRange { maximum }),
{
    match value {
        None => LevelStep::Report,
        Some(v) => if v > maximum {
            LevelStep::OutOfRange { maximum }
        } else {
            LevelStep::Write(v)
        },
    }
}

/// The level once a request has begun: a level to write is taken at once (the write
/// reads it from the state); a report or a refusal leaves the level.
pub open spec fn begun_level(level: u16, maximum: u16, value: Option<u16>) -> u16 {
    match value {
        Some(v) if v <= maximum => v,
        _ => level,
    }
}

/// Begins a brightness or contrast request on the stored level: decides its step and,
/// for a write, stores the new level before it is written.
pub fn begin_level_change(level: &mut u16, maximum: u16, value: Option<u16>) -> (step: LevelStep)
    ensures
        value.is_none() ==> step == LevelStep::Report,
        value.is_some() && value.unwrap() <= maximum ==> step == LevelStep::Write(value.unwrap()),
        value.is_some() && value.unwrap() > maximum ==> step == (LevelStep::OutOfRange { maximum }),
        *final(level) == begun_level(*old(level), maximum, value),
{
    let step = level_step(value, maximum);
    if let LevelStep::Write(v) = step {
        *level = v;
    }
    step
}

/// Settles a written level: it stays when the write succeeded, and goes back to the
/// level held before the request when the write failed.
/// An event announces the change exactly when the write succeeded.
pub fn settle_level_change(level: &mut u16, previous: u16, written: bool) -> (announce: bool)
    ensures
        *final(level) == if written { *old(level) } else { previous },
        announce == written,
{
    if !written {
        *level = previous;
    }
    written
}

/// The level after a whole request: a write of a level up to the maximum that
/// succeeded leaves that level; a failed write, a refused level and a plain report
/// leave the level as it was.
pub proof fn law_level_change(level: u16, maximum: u16, value: Option<u16>, written: bool)
    ensures
        ({
            let begun = begun_level(level, maximum, value);
            let writes = value.is_some() && value.unwrap() <= maximum;
            let settled = if writes { if written { begun } else { level } } else { begun };
            settled == if writes && written { value.unwrap() } else { level }
        }),
{
}

/// The commands that clients send to the daemon.
#[derive(Debug, Clone, Copy, PartialEq, Eq, Structural)]
pub enum RequestKind {
    List,
    Info,
    Brightness,
    Contrast,
    Dim,
    Restore,
    Subscribe,
    Unknown,
}

/// The kind of a command word.
pub open spec fn kind_of(command: Seq<char>) -> RequestKind {
    if command == "list"@ {
        RequestKind::List
    } else if command == "info"@ {
        RequestKind::Info
    } else if command == "brightness"@ {
        RequestKind::Brightness
    } else if command == "contrast"@ {
        RequestKind::Contrast
    } else if command == "dim"@ {
        RequestKind::Dim
    } else if command == "restore"@ {
        RequestKind::Restore
    } else if command == "subscribe"@ {
        RequestKind::Subscribe
    } else {
        RequestKind::Unknown
    }
}

fn is_word(command: &String, word: &str) -> (same: bool)
    ensures
        same == (command@ == word@),
{
    let word = word.to_owned();
    *command == word
}

/// The kind of command that a request names.
pub fn request_kind(command: &String) -> (kind: RequestKind)
    ensures
        kind == kind_of(command@),
{
    if is_word(command, "list") {
        RequestKind::List
    } else if is_word(command, "info") {
        RequestKind::Info
    } else if is_word(command, "brightness") {
        RequestKind::Brightness
    } else if is_word(command, "contrast") {
        RequestKind::Contrast
    } else if is_word(command, "dim") {
        RequestKind::Dim
    } else if is_word(command, "restore") {
        RequestKind::Restore
    } else if is_word(command, "subscribe") {
        RequestKind::Subscribe
    } else {
        RequestKind::Unknown
    }
}

/// The connectors of `existing` that are still connected, in order.
pub open spec fn kept(existing: Seq<Seq<char>>, connected: Seq<Seq<char>>) -> Seq<Seq<char>> {
    existing.filter(|c: Seq<char>| connected.contains(c))
}

proof fn lemma_kept_contains(existing: Seq<Seq<char>>, connected: Seq<Seq<char>>, c: Seq<char>)
    ensures
        kept(existing, connected).contains(c) <==> (existing.contains(c) && connected.contains(c)),
{
    let pred = |x: Seq<char>| connected.contains(x);
    if kept(existing, connected).contains(c) {
        existing.lemma_filter_contains_rev(pred, c);
        let i = choose|i: int| 0 <= i < kept(existing, connected).len() && kept(existing, connected)[i] == c;
        existing.lemma_filter_pred(pred, i);
    }
    if existing.contains(c) && connected.contains(c) {
        let i = choose|i: int| 0 <= i < existing.len() && existing[i] == c;
        existing.lemma_filter_contains(pred, i);
    }
}

/// The known connectors that are still connected, in their order.
fn kept_connectors(existing: &Vec<String>, connected: &Vec<String>) -> (kept_list: Vec<String>)
    ensures
        texts(kept_list@) == kept(texts(existing@), texts(connected@)),
{
    let mut kept_list: Vec<String> = Vec::new();
    let ghost pred = |c: Seq<char>| texts(connected@).contains(c);
    let mut i: usize = 0;
    while i < existing.len()
        invariant
            i <= existing.len(),
            pred == (|c: Seq<char>| texts(connected@).contains(c)),
            texts(kept_list@) == texts(existing@).take(i as int).filter(pred),
        decreases existing.len() - i,
    {
        let ghost before = kept_list@;
        reveal_with_fuel(Seq::<_>::filter, 1);
        assert(texts(existing@).take(i as int + 1).drop_last() == texts(existing@).take(i as int));
        if contains_text(connected, &existing[i]) {
            kept_list.push(existing[i].clone());
            assert(texts(kept_list@) == texts(before).push(existing@[i as int]@));
        } else {
            assert(kept_list@ == before);
        }
        i = i + 1;
    }
    assert(texts(existing@).take(i as int) == texts(existing@));
    kept_list
}

fn copy_text(text: &Option<String>) -> (copy: Option<String>)
    ensures
        text_of(copy) == text_of(*text),
{
    match text {
        Some(s) => Some(s.clone()),
        None => None,
    }
}

/// The monitors that the daemon serves, by connector, in the order they joined, and
/// the default among them. The default always fits the monitors: it is one of
/// them, and there is one whenever there is a monitor.
pub struct MonitorRoster {
    connectors: Vec<String>,
    default: Option<String>,
}

impl MonitorRoster {
    #[verifier::type_invariant]
    spec fn fits(self) -> bool {
        default_fits(texts(self.connectors@), text_of(self.default))
    }

    /// The connectors of the monitors served.
    pub closed spec fn monitors(self) -> Seq<Seq<char>> {
        texts(self.connectors@)
    }

    /// The connector of the default monitor.
    pub closed spec fn default_view(self) -> Option<Seq<char>> {
        text_of(self.default)
    }

    /// The roster after discovery: the monitors found (sorted by connector), with the
    /// cached default while it is among them, else the first of them.
    pub fn new(connectors: Vec<String>, cached: Option<String>) -> (roster: Self)
        ensures
            roster.monitors() == texts(connectors@),
            roster.default_view() == chosen_default(text_of(cached), texts(connectors@)),
            default_fits(roster.monitors(), roster.default_view()),
    {
        let default = choose_default(cached, &connectors);
        proof {
            law_default_is_found_monitor(text_of(cached), texts(connectors@));
        }
        MonitorRoster { connectors, default }
    }

    /// The connectors of the monitors served, in the order they joined.
    pub fn connectors(&self) -> (list: &Vec<String>)
        ensures
            texts(list@) == self.monitors(),
    {
        &self.connectors
    }

    /// The connector of the default monitor.
    pub fn default_monitor(&self) -> (default: Option<String>)
        ensures
            text_of(default) == self.default_view(),
            default_fits(self.monitors(), self.default_view()),
    {
        proof {
            use_type_invariant(self);
        }
        copy_text(&self.default)
    }

    /// Drops the monitors that are no longer connected and returns their connectors;
    /// a removed default is replaced by the first monitor left.
    pub fn unplug(&mut self, connected: &Vec<String>) -> (removed: Vec<String>)
        ensures
            texts(removed@) == gone(old(self).monitors(), texts(connected@)),
            final(self).monitors() == kept(old(self).monitors(), texts(connected@)),
            final(self).default_view() == default_after_removal_spec(
                old(self).default_view(),
                gone(old(self).monitors(), texts(connected@)),
                final(self).monitors(),
            ),
            default_fits(final(self).monitors(), final(self).default_view()),
            forall|c: Seq<char>| final(self).monitors().contains(c) ==> texts(connected@).contains(c),
    {
        proof {
            use_type_invariant(&*self);
        }
        let removed = removed_connectors(&self.connectors, connected);
        let remaining = kept_connectors(&self.connectors, connected);
        let default = default_after_removal(copy_text(&self.default), &removed, &remaining);
        proof {
            let existing = texts(self.connectors@);
            let conn = texts(connected@);
            assert forall|c: Seq<char>| texts(remaining@).contains(c) <==> (existing.contains(c) && conn.contains(c)) by {
                lemma_kept_contains(existing, conn, c);
            }
            lemma_hotplug_round(existing, text_of(self.default), conn, texts(remaining@), Seq::empty(), texts(remaining@));
        }
        *self = MonitorRoster { connectors: remaining, default };
        removed
    }

    /// Whether a monitor found on `connector` joins: it is connected and not served yet.
    pub fn admits(&self, connector: &String, connected: &Vec<String>) -> (admitted: bool)
        ensures
            admitted == (texts(connected@).contains(connector@) && !self.monitors().contains(connector@)),
    {
        contains_text(connected, connector) && !contains_text(&self.connectors, connector)
    }

    /// Adds the monitor on `connector` when it is admitted; it becomes the default
    /// when there is none.
    pub fn plug(&mut self, connector: String, connected: &Vec<String>) -> (inserted: bool)
        ensures
            inserted == (texts(connected@).contains(connector@) && !old(self).monitors().contains(connector@)),
            inserted ==> final(self).monitors() == old(self).monitors().push(connector@),
            inserted ==> final(self).default_view() == default_when_missing(
                old(self).default_view(),
                final(self).monitors(),
            ),
            !inserted ==> final(self).monitors() == old(self).monitors(),
            !inserted ==> final(self).default_view() == old(self).default_view(),
            default_fits(final(self).monitors(), final(self).default_view()),
            (forall|c: Seq<char>| old(self).monitors().contains(c) ==> texts(connected@).contains(c)) ==> (
            forall|c: Seq<char>| final(self).monitors().contains(c) ==> texts(connected@).contains(c)),
    {
        proof {
            use_type_invariant(&*self);
        }
        if !self.admits(&connector, connected) {
            return false;
        }
        let mut current = MonitorRoster { connectors: Vec::new(), default: None };
        std::mem::swap(self, &mut current);
        proof {
            use_type_invariant(&current);
        }
        let ghost before = texts(current.connectors@);
        let MonitorRoster { mut connectors, default } = current;
        let default = match default {
            Some(d) => Some(d),
            None => Some(connector.clone()),
        };
        connectors.push(connector);
        proof {
            assert(texts(connectors@) == before.push(connectors@.last()@));
            assert(texts(connectors@).contains(texts(connectors@)[texts(connectors@).len() - 1]));
            if before.len() == 0 {
                assert(texts(connectors@)[0] == connectors@.last()@);
            }
            assert forall|c: Seq<char>| texts(connectors@).contains(c) implies (before.contains(c) || c
                == connectors@.last()@) by {
                let i = choose|i: int| 0 <= i < texts(connectors@).len() && texts(connectors@)[i] == c;
                if i < before.len() {
                    assert(before[i] == c);
                }
            }
            assert forall|c: Seq<char>| before.contains(c) implies texts(connectors@).contains(c) by {
                let i = choose|i: int| 0 <= i < before.len() && before[i] == c;
                assert(texts(connectors@)[i] == c);
            }
        }
        *self = MonitorRoster { connectors, default };
        true
    }
}

/// What a reconnection settles on.
#[derive(Debug, Clone, Copy, PartialEq, Eq, Structural)]
pub enum ReconnectChoice {
    /// The monitor rediscovered on its old path is still on its connector.
    Original,
    /// The monitor at this index of the scan is on the connector.
    Scanned(usize),
    /// No monitor on the connector was found.
    Lost,
}

/// The first index from `i` on whose connector is `expected`.
pub open spec fn first_on_connector_from(found: Seq<Option<String>>, expected: Seq<char>, i: int) -> Option<int>
    decreases found.len() - i,
{
    if i < 0 || i >= found.len() {
        None
    } else if text_of(found[i]) == Some(expected) {
        Some(i)
    } else {
        first_on_connector_from(found, expected, i + 1)
    }
}

/// What a reconnection to the monitor on `expected` settles on: the monitor found
/// again on its old path when that one is still on the connector; else the first
/// scanned monitor on the connector; else none. A monitor that could not be
/// inspected has no connector.
pub open spec fn reconnect_choice_of(expected: Seq<char>, original: Option<Seq<char>>, scanned: Seq<Option<String>>) -> ReconnectChoice {
    if original == Some(expected) {
        ReconnectChoice::Original
    } else {
        match first_on_connector_from(scanned, expected, 0) {
            Some(i) => ReconnectChoice::Scanned(i as usize),
            None => ReconnectChoice::Lost,
        }
    }
}

proof fn lemma_first_on_connector_from(found: Seq<Option<String>>, expected: Seq<char>, i: int)
    requires
        0 <= i <= found.len(),
    ensures
        match first_on_connector_from(found, expected, i) {
            Some(k) => {
                &&& i <= k < found.len()
                &&& text_of(found[k]) == Some(expected)
                &&& forall|j: int| i <= j < k ==> text_of(#[trigger] found[j]) != Some(expected)
            },
            None => forall|j: int| i <= j < found.len() ==> text_of(#[trigger] found[j]) != Some(
                expected,
            ),
        },
    decreases found.len() - i,
{
    if i < found.len() && text_of(found[i]) != Some(expected) {
        lemma_first_on_connector_from(found, expected, i + 1);
    }
}

/// A reconnection keeps the monitor found on its old path exactly when that one is
/// still on the expected connector; otherwise it takes the first scanned monitor on
/// that connector, and it settles on none only when no scanned monitor is on it.
pub proof fn law_reconnect_to_first_on_connector(
    expected: Seq<char>,
    original: Option<Seq<char>>,
    scanned: Seq<Option<String>>,
)
    requires
        scanned.len() <= usize::MAX,
    ensures
        (reconnect_choice_of(expected, original, scanned) == ReconnectChoice::Original) <==> original
            == Some(expected),
        reconnect_choice_of(expected, original, scanned) matches ReconnectChoice::Scanned(k) ==> {
            &&& original != Some(expected)
            &&& k < scanned.len()
            &&& text_of(scanned[k as int]) == Some(expected)
            &&& forall|j: int| 0 <= j < k ==> text_of(#[trigger] scanned[j]) != Some(expected)
        },
        reconnect_choice_of(expected, original, scanned) == ReconnectChoice::Lost ==> {
            &&& original != Some(expected)
            &&& forall|j: int| 0 <= j < scanned.len() ==> text_of(#[trigger] scanned[j]) != Some(
                expected,
            )
        },
{
    lemma_first_on_connector_from(scanned, expected, 0);
}

/// Chooses where a lost monitor is found again: `original` is the connector of the
/// monitor found on its old path, `scanned` those of the monitors of a full scan.
pub fn reconnect_choice(expected: &String, original: &Option<String>, scanned: &Vec<Option<String>>) -> (choice: ReconnectChoice)
    ensures
        choice == reconnect_choice_of(expected@, text_of(*original), scanned@),
{
    if let Some(o) = original {
        if *o == *expected {
            return ReconnectChoice::Original;
        }
    }
    let mut i: usize = 0;
    while i < scanned.len()
        invariant
            i <= scanned.len(),
            text_of(*original) != Some(expected@),
            first_on_connector_from(scanned@, expected@, 0) == first_on_connector_from(scanned@, expected@, i as int),
        decreases scanned.len() - i,
    {
        if let Some(c) = &scanned[i] {
            if *c == *expected {
                return ReconnectChoice::Scanned(i);
            }
        }
        i = i + 1;
    }
    ReconnectChoice::Lost
}

} // verus!
