//! The registry of screens: which screens exist, what each is bound to, and
//! when each was last heard of.
//!
//! The registry decides; it does not act. Whoever holds it makes the calls to
//! the capability provider of a screen and tells the registry what came of
//! them. Time is a count of milliseconds on a clock that never runs backwards,
//! handed in by the caller.

use crate::error::{AppError, ErrorKind};
use crate::jpeg::{encodable, encode_jpeg, jpeg_encoding, low16, JPEG_QUALITY};
use crate::packages::{resolve_package, resolved_package, strings_view};
use crate::text::{chars_of, has_prefix, same_chars};
use crate::types::{CreateScreenRequest, ScreenInfo, ScreenInfoView};
use vstd::prelude::*;

verus! {

/// One screen. `H` is the handle of its capability provider, which the
/// registry keeps and never looks into.
pub struct VirtualScreen<H> {
    pub name: String,
    pub display_id: i32,
    pub instance: H,
    pub last_jpeg: Option<Vec<u8>>,
    pub width: i32,
    pub height: i32,
    pub dpi: i32,
    pub last_heartbeat: u64,
    pub timeout_secs: u64,
    pub last_interaction: Option<u64>,
    pub assigned_package: String,
}

/// What a screen holds, with its strings and bytes as sequences.
pub struct ScreenView<H> {
    pub name: Seq<char>,
    pub display_id: i32,
    pub instance: H,
    pub last_jpeg: Option<Seq<u8>>,
    pub width: i32,
    pub height: i32,
    pub dpi: i32,
    pub last_heartbeat: u64,
    pub timeout_secs: u64,
    pub last_interaction: Option<u64>,
    pub assigned_package: Seq<char>,
}

/// The bytes of an optional buffer.
pub open spec fn opt_bytes(b: Option<Vec<u8>>) -> Option<Seq<u8>> {
    match b {
        Some(v) => Some(v@),
        None => None,
    }
}

impl<H> View for VirtualScreen<H> {
    type V = ScreenView<H>;

    open spec fn view(&self) -> ScreenView<H> {
        ScreenView {
            name: self.name@,
            display_id: self.display_id,
            instance: self.instance,
            last_jpeg: opt_bytes(self.last_jpeg),
            width: self.width,
            height: self.height,
            dpi: self.dpi,
            last_heartbeat: self.last_heartbeat,
            timeout_secs: self.timeout_secs,
            last_interaction: self.last_interaction,
            assigned_package: self.assigned_package@,
        }
    }
}

/// The views of a sequence of screens.
pub open spec fn screens_view<H>(screens: Seq<VirtualScreen<H>>) -> Seq<ScreenView<H>> {
    screens.map_values(|s: VirtualScreen<H>| s@)
}

/// The position of the first screen at or behind `from` that is called `name`.
pub open spec fn index_from<H>(screens: Seq<ScreenView<H>>, name: Seq<char>, from: int) -> Option<
    int,
>
    decreases screens.len() - from,
{
    if from < 0 || from >= screens.len() {
        None
    } else if screens[from].name == name {
        Some(from)
    } else {
        index_from(screens, name, from + 1)
    }
}

/// The position of the screen called `name`.
pub open spec fn index_of<H>(screens: Seq<ScreenView<H>>, name: Seq<char>) -> Option<int> {
    index_from(screens, name, 0)
}

/// Whether no two screens have the same name.
pub open spec fn distinct_names<H>(screens: Seq<ScreenView<H>>) -> bool {
    forall|i: int, j: int|
        0 <= i < j < screens.len() ==> (#[trigger] screens[i]).name != (#[trigger] screens[j]).name
}

/// What is told about a screen.
pub open spec fn info_of<H>(s: ScreenView<H>) -> ScreenInfoView {
    ScreenInfoView {
        name: s.name,
        display_id: s.display_id,
        width: s.width,
        height: s.height,
        dpi: s.dpi,
        assigned_package: s.assigned_package,
    }
}

/// The later of two times.
pub open spec fn later(a: u64, b: u64) -> u64 {
    if a >= b {
        a
    } else {
        b
    }
}

/// A screen after it was heard of at `now`. The time at which a screen was
/// last heard of never goes back: a time before it changes nothing.
pub open spec fn touched<H>(s: ScreenView<H>, now: u64) -> ScreenView<H> {
    ScreenView { last_heartbeat: later(s.last_heartbeat, now), ..s }
}

/// A screen after something was done to it at `now`. The time of the last
/// interaction never goes back.
pub open spec fn interacted<H>(s: ScreenView<H>, now: u64) -> ScreenView<H> {
    ScreenView {
        last_interaction: Some(
            match s.last_interaction {
                Some(then) => later(then, now),
                None => now,
            },
        ),
        ..s
    }
}

/// A screen after the frame `jpeg` was captured from it.
pub open spec fn with_frame<H>(s: ScreenView<H>, jpeg: Seq<u8>) -> ScreenView<H> {
    ScreenView { last_jpeg: Some(jpeg), ..s }
}

/// The packages that the screens are bound to, screen by screen.
pub open spec fn assigned_packages<H>(screens: Seq<ScreenView<H>>) -> Seq<Seq<char>> {
    screens.map_values(|s: ScreenView<H>| s.assigned_package)
}

/// A new screen as the registry enters it.
pub open spec fn fresh_screen<H>(
    name: Seq<char>,
    width: i32,
    height: i32,
    dpi: i32,
    timeout_secs: u64,
    instance: H,
    display_id: i32,
    package: Seq<char>,
    now: u64,
) -> ScreenView<H> {
    ScreenView {
        name,
        display_id,
        instance,
        last_jpeg: None,
        width,
        height,
        dpi,
        last_heartbeat: now,
        timeout_secs,
        last_interaction: None,
        assigned_package: package,
    }
}

/// How long ago `then` was, seen from `now`; nothing where `then` is not in
/// the past.
pub open spec fn elapsed_ms(then: u64, now: u64) -> int {
    if now >= then {
        now - then
    } else {
        0
    }
}

/// Whether a screen has not been heard of for longer than its timeout.
pub open spec fn is_stale<H>(s: ScreenView<H>, now: u64) -> bool {
    elapsed_ms(s.last_heartbeat, now) > s.timeout_secs * 1000
}

/// Of the first `k` screens, those that are not stale, in order.
pub open spec fn survivors_upto<H>(screens: Seq<ScreenView<H>>, now: u64, k: int) -> Seq<
    ScreenView<H>,
>
    decreases k,
{
    if k <= 0 {
        Seq::empty()
    } else if is_stale(screens[k - 1], now) {
        survivors_upto(screens, now, k - 1)
    } else {
        survivors_upto(screens, now, k - 1).push(screens[k - 1])
    }
}

/// Of the first `k` screens, those that are stale, in order.
pub open spec fn stale_upto<H>(screens: Seq<ScreenView<H>>, now: u64, k: int) -> Seq<
    ScreenView<H>,
>
    decreases k,
{
    if k <= 0 {
        Seq::empty()
    } else if is_stale(screens[k - 1], now) {
        stale_upto(screens, now, k - 1).push(screens[k - 1])
    } else {
        stale_upto(screens, now, k - 1)
    }
}

/// The screens that a sweep at `now` keeps.
pub open spec fn survivors<H>(screens: Seq<ScreenView<H>>, now: u64) -> Seq<ScreenView<H>> {
    survivors_upto(screens, now, screens.len() as int)
}

/// The screens that a sweep at `now` removes.
pub open spec fn reaped<H>(screens: Seq<ScreenView<H>>, now: u64) -> Seq<ScreenView<H>> {
    stale_upto(screens, now, screens.len() as int)
}

/// What the registry answers to a request for a screen.
pub enum CreateStep {
    /// The screen exists: this is it.
    Existing(ScreenInfo),
    /// There is no such screen: a capability provider is to be made for it,
    /// and the screen then admitted.
    Provision,
}

/// What came of admitting a new screen.
pub enum Admission<H> {
    /// The screen was entered.
    Created(ScreenInfo),
    /// A screen of that name was there already: it stays as it is, and the
    /// handle is handed back unused.
    Existing(ScreenInfo, H),
    /// No package could be bound: nothing was entered, and the handle is
    /// handed back.
    Rejected(AppError, H),
}

/// The registry of screens.
pub struct ServerState<H> {
    screens: Vec<VirtualScreen<H>>,
}

impl<H> View for ServerState<H> {
    type V = Seq<ScreenView<H>>;

    closed spec fn view(&self) -> Seq<ScreenView<H>> {
        screens_view(self.screens@)
    }
}

fn info_for<H>(screen: &VirtualScreen<H>) -> (info: ScreenInfo)
    ensures
        info@ == info_of(screen@),
{
    ScreenInfo {
        name: screen.name.clone(),
        display_id: screen.display_id,
        width: screen.width,
        height: screen.height,
        dpi: screen.dpi,
        assigned_package: screen.assigned_package.clone(),
    }
}

impl<H> ServerState<H> {
    /// Whether the registry is in order: no two screens have the same name.
    pub open spec fn wf(&self) -> bool {
        distinct_names(self@)
    }

    /// A registry without screens.
    pub fn new() -> (state: ServerState<H>)
        ensures
            state.wf(),
            state@ == Seq::<ScreenView<H>>::empty(),
    {
        let state = ServerState { screens: Vec::new() };
        assert(state@ =~= Seq::<ScreenView<H>>::empty());
        state
    }

    /// The position of the screen called `name`.
    fn find(&self, name: &str) -> (r: Option<usize>)
        ensures
            match r {
                Some(i) => index_of(self@, name@) == Some(i as int) && i < self.screens.len()
                    && self@[i as int].name == name@,
                None => index_of(self@, name@) is None,
            },
    {
        let wanted = chars_of(name);
        let mut i: usize = 0;
        while i < self.screens.len()
            invariant
                i <= self.screens.len(),
                wanted@ == name@,
                index_of(self@, name@) == index_from(self@, name@, i as int),
            decreases self.screens.len() - i,
        {
            let have = chars_of(self.screens[i].name.as_str());
            assert(self@[i as int] == self.screens@[i as int]@);
            if same_chars(&have, &wanted) {
                return Some(i);
            }
            i += 1;
        }
        None
    }

    /// How many screens there are.
    pub fn len(&self) -> (n: usize)
        ensures
            n == self@.len(),
    {
        self.screens.len()
    }

    /// The screen called `name`, for reading.
    pub fn get_screen(&self, name: &str) -> (r: Result<&VirtualScreen<H>, AppError>)
        ensures
            match index_of(self@, name@) {
                Some(i) => r is Ok && r->Ok_0@ == self@[i],
                None => r is Err && r->Err_0.kind == ErrorKind::NotFound && r->Err_0.message@
                    == "screen "@ + name@ + " not found"@,
            },
    {
        match self.find(name) {
            Some(i) => {
                assert(self@[i as int] == self.screens@[i as int]@);
                Ok(&self.screens[i])
            },
            None => Err(AppError::not_found(name)),
        }
    }

    /// What is told about every screen, in the order in which they were made.
    pub fn list_screens(&self) -> (r: Vec<ScreenInfo>)
        ensures
            r@.map_values(|i: ScreenInfo| i@) == self@.map_values(|s: ScreenView<H>| info_of(s)),
    {
        let mut r: Vec<ScreenInfo> = Vec::new();
        let mut i: usize = 0;
        while i < self.screens.len()
            invariant
                i <= self.screens.len(),
                r@.map_values(|i: ScreenInfo| i@) == self@.take(i as int).map_values(
                    |s: ScreenView<H>| info_of(s),
                ),
            decreases self.screens.len() - i,
        {
            let ghost before = r@.map_values(|i: ScreenInfo| i@);
            assert(self@[i as int] == self.screens@[i as int]@);
            r.push(info_for(&self.screens[i]));
            assert(r@.map_values(|i: ScreenInfo| i@) =~= before.push(info_of(self@[i as int])));
            assert(self@.take(i + 1).map_values(|s: ScreenView<H>| info_of(s)) =~= self@.take(
                i as int,
            ).map_values(|s: ScreenView<H>| info_of(s)).push(info_of(self@[i as int])));
            i += 1;
        }
        assert(self@.take(i as int) =~= self@);
        r
    }

    /// Notes that the screen at position `i` was heard of at `now`.
    fn touch_at(&mut self, i: usize, now: u64)
        requires
            old(self).wf(),
            i < old(self)@.len(),
        ensures
            final(self).wf(),
            final(self).screens@.len() == old(self).screens@.len(),
            final(self)@ == old(self)@.update(i as int, touched(old(self)@[i as int], now)),
    {
        let ghost before = self@;
        assert(before[i as int] == self.screens@[i as int]@);
        let screen = &mut self.screens[i];
        if now > screen.last_heartbeat {
            screen.last_heartbeat = now;
        }
        assert(self@ =~= before.update(i as int, touched(before[i as int], now)));
    }

    /// Notes that the screen called `name` was heard of at `now`.
    ///
    /// Fails with `NotFound`, and changes nothing, where there is no such
    /// screen.
    pub fn heartbeat(&mut self, name: &str, now: u64) -> (r: Result<(), AppError>)
        requires
            old(self).wf(),
        ensures
            final(self).wf(),
            match index_of(old(self)@, name@) {
                Some(i) => r is Ok && final(self)@ == old(self)@.update(
                    i,
                    touched(old(self)@[i], now),
                ),
                None => r is Err && r->Err_0.kind == ErrorKind::NotFound && r->Err_0.message@
                    == "screen "@ + name@ + " not found"@ && final(self)@ == old(self)@,
            },
    {
        match self.find(name) {
            Some(i) => {
                self.touch_at(i, now);
                Ok(())
            },
            None => Err(AppError::not_found(name)),
        }
    }

    /// What is told about the screen called `name`; the screen counts as heard
    /// of at `now`.
    ///
    /// Fails with `NotFound`, and changes nothing, where there is no such
    /// screen.
    pub fn screen_info(&mut self, name: &str, now: u64) -> (r: Result<ScreenInfo, AppError>)
        requires
            old(self).wf(),
        ensures
            final(self).wf(),
            match index_of(old(self)@, name@) {
                Some(i) => r is Ok && r->Ok_0@ == info_of(old(self)@[i]) && final(self)@ == old(
                    self,
                )@.update(i, touched(old(self)@[i], now)),
                None => r is Err && r->Err_0.kind == ErrorKind::NotFound && r->Err_0.message@
                    == "screen "@ + name@ + " not found"@ && final(self)@ == old(self)@,
            },
    {
        match self.find(name) {
            Some(i) => {
                self.touch_at(i, now);
                assert(self@[i as int] == self.screens@[i as int]@);
                Ok(info_for(&self.screens[i]))
            },
            None => Err(AppError::not_found(name)),
        }
    }

    /// Notes that something was done to the screen called `name` at `now`: a
    /// tap, a swipe, text or a key.
    ///
    /// Fails with `NotFound`, and changes nothing, where there is no such
    /// screen.
    pub fn stamp_interaction(&mut self, name: &str, now: u64) -> (r: Result<(), AppError>)
        requires
            old(self).wf(),
        ensures
            final(self).wf(),
            match index_of(old(self)@, name@) {
                Some(i) => r is Ok && final(self)@ == old(self)@.update(
                    i,
                    interacted(old(self)@[i], now),
                ),
                None => r is Err && r->Err_0.kind == ErrorKind::NotFound && r->Err_0.message@
                    == "screen "@ + name@ + " not found"@ && final(self)@ == old(self)@,
            },
    {
        match self.find(name) {
            Some(i) => {
                let ghost before = self@;
                assert(before[i as int] == self.screens@[i as int]@);
                let screen = &mut self.screens[i];
                let stamp: u64 = match screen.last_interaction {
                    Some(then) => if then >= now {
                        then
                    } else {
                        now
                    },
                    None => now,
                };
                screen.last_interaction = Some(stamp);
                assert(self@ =~= before.update(i as int, interacted(before[i as int], now)));
                Ok(())
            },
            None => Err(AppError::not_found(name)),
        }
    }

    /// Answers a request for a screen called `req.name`: an existing screen
    /// counts as heard of at `now` and is told about as it is, whatever else
    /// the request holds; for a screen that does not exist the caller is to
    /// make a capability provider and admit the screen.
    pub fn create_screen(&mut self, req: &CreateScreenRequest, now: u64) -> (step: CreateStep)
        requires
            old(self).wf(),
        ensures
            final(self).wf(),
            match index_of(old(self)@, req@.name) {
                Some(i) => step matches CreateStep::Existing(info) && info@ == info_of(
                    old(self)@[i],
                ) && final(self)@ == old(self)@.update(i, touched(old(self)@[i], now)),
                None => step is Provision && final(self)@ == old(self)@,
            },
    {
        match self.find(req.name.as_str()) {
            Some(i) => {
                self.touch_at(i, now);
                assert(self@[i as int] == self.screens@[i as int]@);
                CreateStep::Existing(info_for(&self.screens[i]))
            },
            None => CreateStep::Provision,
        }
    }

    /// The packages that the screens are bound to, screen by screen.
    pub fn assigned(&self) -> (r: Vec<String>)
        ensures
            strings_view(r@) == assigned_packages(self@),
    {
        let mut r: Vec<String> = Vec::new();
        let mut i: usize = 0;
        while i < self.screens.len()
            invariant
                i <= self.screens.len(),
                strings_view(r@) == assigned_packages(self@.take(i as int)),
            decreases self.screens.len() - i,
        {
            let ghost before = strings_view(r@);
            assert(self@[i as int] == self.screens@[i as int]@);
            r.push(self.screens[i].assigned_package.clone());
            assert(strings_view(r@) =~= before.push(self@[i as int].assigned_package));
            assert(assigned_packages(self@.take(i + 1)) =~= assigned_packages(
                self@.take(i as int),
            ).push(self@[i as int].assigned_package));
            i += 1;
        }
        assert(self@.take(i as int) =~= self@);
        r
    }

    /// Enters a new screen for `req`, with the capability provider `instance`
    /// on the display `display_id`, and binds it to a package: to
    /// `req.package` itself where that is among `installed`, else to the
    /// smallest package among `installed` that begins with `req.package` and
    /// is bound to no screen.
    ///
    /// Where no package can be bound, nothing is entered and the failure is of
    /// kind `NoFreePackage`. Where a screen of that name exists already, it
    /// counts as heard of at `now` and nothing is entered.
    pub fn admit_screen(
        &mut self,
        req: &CreateScreenRequest,
        instance: H,
        display_id: i32,
        installed: &Vec<String>,
        now: u64,
    ) -> (r: Admission<H>)
        requires
            old(self).wf(),
        ensures
            final(self).wf(),
            match index_of(old(self)@, req@.name) {
                Some(i) => r matches Admission::Existing(info, h) && h == instance && info@
                    == info_of(old(self)@[i]) && final(self)@ == old(self)@.update(
                    i,
                    touched(old(self)@[i], now),
                ),
                None => match resolved_package(
                    req@.package,
                    strings_view(installed@),
                    assigned_packages(old(self)@),
                ) {
                    Some(package) => r matches Admission::Created(info) && info@ == info_of(
                        fresh_screen(
                            req@.name,
                            req.width,
                            req.height,
                            req.dpi,
                            req.timeout_secs,
                            instance,
                            display_id,
                            package,
                            now,
                        ),
                    ) && final(self)@ == old(self)@.push(
                        fresh_screen(
                            req@.name,
                            req.width,
                            req.height,
                            req.dpi,
                            req.timeout_secs,
                            instance,
                            display_id,
                            package,
                            now,
                        ),
                    ),
                    None => r matches Admission::Rejected(e, h) && h == instance && e.kind
                        == ErrorKind::NoFreePackage && e.message@
                        == "no free package available with given prefix"@ && final(self)@ == old(
                        self,
                    )@,
                },
            },
    {
        match self.find(req.name.as_str()) {
            Some(i) => {
                self.touch_at(i, now);
                assert(self@[i as int] == self.screens@[i as int]@);
                Admission::Existing(info_for(&self.screens[i]), instance)
            },
            None => {
                let taken = self.assigned();
                match resolve_package(req.package.as_str(), installed, &taken) {
                    Some(package) => {
                        let ghost before = self@;
                        let screen = VirtualScreen {
                            name: req.name.clone(),
                            display_id,
                            instance,
                            last_jpeg: None,
                            width: req.width,
                            height: req.height,
                            dpi: req.dpi,
                            last_heartbeat: now,
                            timeout_secs: req.timeout_secs,
                            last_interaction: None,
                            assigned_package: package,
                        };
                        let info = info_for(&screen);
                        proof {
                            lemma_index_from(before, req@.name, 0);
                        }
                        self.screens.push(screen);
                        assert(self@ =~= before.push(screen@));
                        Admission::Created(info)
                    },
                    None => Admission::Rejected(
                        AppError::new(
                            ErrorKind::NoFreePackage,
                            "no free package available with given prefix",
                        ),
                        instance,
                    ),
                }
            },
        }
    }

    /// Removes the entry of the screen called `name`.
    ///
    /// This is the second step of destroying a screen. The first is the
    /// caller's: it takes the handle of the capability provider from
    /// `get_screen`, with the registry as it is, and releases it. Only then
    /// is the entry removed here, and the handle dropped with it.
    ///
    /// Fails with `NotFound`, and changes nothing, where there is no such
    /// screen.
    pub fn destroy_screen(&mut self, name: &str) -> (r: Result<(), AppError>)
        requires
            old(self).wf(),
        ensures
            final(self).wf(),
            match index_of(old(self)@, name@) {
                Some(i) => r is Ok && final(self)@ == old(self)@.remove(i),
                None => r is Err && r->Err_0.kind == ErrorKind::NotFound && r->Err_0.message@
                    == "screen "@ + name@ + " not found"@ && final(self)@ == old(self)@,
            },
    {
        match self.find(name) {
            Some(i) => {
                let ghost before = self@;
                assert(before[i as int] == self.screens@[i as int]@);
                let _ = self.screens.remove(i);
                assert(self@ =~= before.remove(i as int));
                Ok(())
            },
            None => Err(AppError::not_found(name)),
        }
    }

    /// Keeps the frame `jpeg`, if there is one, as the last frame of the
    /// screen called `name`, and hands out the frame to show: `jpeg` itself,
    /// or, where the provider had no frame, the last one kept. The screen
    /// counts as heard of at `now`.
    ///
    /// Fails with `NotFound`, and changes nothing, where there is no such
    /// screen; with `NoFrameAvailable` where there is neither a new frame nor
    /// one kept.
    pub fn store_frame(&mut self, name: &str, jpeg: Option<Vec<u8>>, now: u64) -> (r: Result<
        Vec<u8>,
        AppError,
    >)
        requires
            old(self).wf(),
        ensures
            final(self).wf(),
            match index_of(old(self)@, name@) {
                Some(i) => match jpeg {
                    Some(fresh) => r is Ok && r->Ok_0@ == fresh@ && final(self)@ == old(
                        self,
                    )@.update(i, with_frame(touched(old(self)@[i], now), fresh@)),
                    None => final(self)@ == old(self)@.update(i, touched(old(self)@[i], now))
                        && match old(self)@[i].last_jpeg {
                        Some(kept) => r is Ok && r->Ok_0@ == kept,
                        None => r is Err && r->Err_0.kind == ErrorKind::NoFrameAvailable
                            && r->Err_0.message@ == "no frame available"@,
                    },
                },
                None => r is Err && r->Err_0.kind == ErrorKind::NotFound && r->Err_0.message@
                    == "screen "@ + name@ + " not found"@ && final(self)@ == old(self)@,
            },
    {
        match self.find(name) {
            Some(i) => {
                self.touch_at(i, now);
                let ghost before = self@;
                assert(before[i as int] == self.screens@[i as int]@);
                match jpeg {
                    Some(fresh) => {
                        let shown = fresh.clone();
                        let screen = &mut self.screens[i];
                        screen.last_jpeg = Some(fresh);
                        assert(self@ =~= before.update(
                            i as int,
                            with_frame(before[i as int], fresh@),
                        ));
                        Ok(shown)
                    },
                    None => match &self.screens[i].last_jpeg {
                        Some(kept) => Ok(kept.clone()),
                        None => Err(
                            AppError::new(ErrorKind::NoFrameAvailable, "no frame available"),
                        ),
                    },
                }
            },
            None => Err(AppError::not_found(name)),
        }
    }

    /// Takes the frame that the provider of the screen called `name` has
    /// captured, as RGBA bytes, or takes note that it has none, and hands out
    /// the JPEG image to show.
    ///
    /// A captured frame is encoded at the size of the screen, of which only
    /// the low sixteen bits of width and height count, then kept and shown.
    /// Where the frame cannot be encoded the failure is of kind
    /// `EncodeFailed`, and nothing changes. Without a captured frame the last
    /// frame kept is shown, and the failure is of kind `NoFrameAvailable`
    /// where there is none. The screen counts as heard of at `now` unless the
    /// call fails with `NotFound` or `EncodeFailed`.
    pub fn screenshot(&mut self, name: &str, frame: Option<Vec<u8>>, now: u64) -> (r: Result<
        Vec<u8>,
        AppError,
    >)
        requires
            old(self).wf(),
        ensures
            final(self).wf(),
            match index_of(old(self)@, name@) {
                Some(i) => match frame {
                    Some(rgba) => if encodable(
                        rgba@.len(),
                        low16(wrapped_u32(old(self)@[i].width)),
                        low16(wrapped_u32(old(self)@[i].height)),
                    ) {
                        r is Ok && r->Ok_0@ == jpeg_encoding(
                            rgba@,
                            low16(wrapped_u32(old(self)@[i].width)),
                            low16(wrapped_u32(old(self)@[i].height)),
                            JPEG_QUALITY,
                        ) && final(self)@ == old(self)@.update(
                            i,
                            with_frame(touched(old(self)@[i], now), r->Ok_0@),
                        )
                    } else {
                        r is Err && r->Err_0.kind == ErrorKind::EncodeFailed && has_prefix(
                            r->Err_0.message@,
                            "jpeg encode failed: "@,
                        ) && final(self)@ == old(self)@
                    },
                    None => final(self)@ == old(self)@.update(i, touched(old(self)@[i], now))
                        && match old(self)@[i].last_jpeg {
                        Some(kept) => r is Ok && r->Ok_0@ == kept,
                        None => r is Err && r->Err_0.kind == ErrorKind::NoFrameAvailable
                            && r->Err_0.message@ == "no frame available"@,
                    },
                },
                None => r is Err && r->Err_0.kind == ErrorKind::NotFound && r->Err_0.message@
                    == "screen "@ + name@ + " not found"@ && final(self)@ == old(self)@,
            },
    {
        let (width, height) = match self.find(name) {
            Some(i) => {
                assert(self@[i as int] == self.screens@[i as int]@);
                (wrap_u32(self.screens[i].width), wrap_u32(self.screens[i].height))
            },
            None => {
                return Err(AppError::not_found(name));
            },
        };
        let jpeg = match frame {
            Some(rgba) => match encode_jpeg(&rgba, width, height) {
                Ok(j) => Some(j),
                Err(e) => {
                    return Err(e);
                },
            },
            None => None,
        };
        self.store_frame(name, jpeg, now)
    }

    /// The screens that have not been heard of for longer than their timeout,
    /// in the order in which they were made, with the registry as it is.
    ///
    /// This is the first step of a sweep: the caller releases the handle of
    /// each of these screens, and then calls `reap_dead_screens` with the same
    /// time, which removes exactly these.
    pub fn stale_screens(&self, now: u64) -> (stale: Vec<&VirtualScreen<H>>)
        ensures
            stale@.map_values(|s: &VirtualScreen<H>| s@) == reaped(self@, now),
    {
        let mut stale: Vec<&VirtualScreen<H>> = Vec::new();
        let mut i: usize = 0;
        assert(stale@.map_values(|s: &VirtualScreen<H>| s@) =~= stale_upto(self@, now, 0));
        while i < self.screens.len()
            invariant
                i <= self.screens.len(),
                self.screens@.len() == self@.len(),
                stale@.map_values(|s: &VirtualScreen<H>| s@) == stale_upto(self@, now, i as int),
            decreases self.screens.len() - i,
        {
            let ghost found = stale@.map_values(|s: &VirtualScreen<H>| s@);
            assert(self@[i as int] == self.screens@[i as int]@);
            if screen_is_stale(&self.screens[i], now) {
                stale.push(&self.screens[i]);
                assert(stale@.map_values(|s: &VirtualScreen<H>| s@) =~= found.push(
                    self@[i as int],
                ));
            }
            i += 1;
        }
        stale
    }

    /// Removes the entry of every screen that has not been heard of for longer
    /// than its timeout, and tells how many were removed.
    ///
    /// This is the second step of a sweep. The screens removed are those that
    /// `stale_screens` gives for the same time, whose handles the caller has
    /// released before; each handle is dropped with its entry.
    pub fn reap_dead_screens(&mut self, now: u64) -> (removed: usize)
        requires
            old(self).wf(),
        ensures
            final(self).wf(),
            final(self)@ == survivors(old(self)@, now),
            removed == reaped(old(self)@, now).len(),
    {
        let ghost all = self@;
        let ghost mut k: int = 0;
        let mut removed: usize = 0;
        let mut i: usize = 0;
        let count: usize = self.screens.len();
        assert(all.len() == count);
        assert(self@ =~= survivors_upto(all, now, 0) + all.skip(0));
        while i < self.screens.len()
            invariant
                0 <= k <= all.len(),
                i == survivors_upto(all, now, k).len(),
                self@ == survivors_upto(all, now, k) + all.skip(k),
                removed == stale_upto(all, now, k).len(),
                removed + i == k,
                all.len() == count,
                self.screens@.len() == self@.len(),
            decreases all.len() - k,
        {
            let ghost before = self@;
            assert(before[i as int] == all[k]);
            assert(before[i as int] == self.screens@[i as int]@);
            assert(all.skip(k + 1) =~= all.skip(k).drop_first());
            if screen_is_stale(&self.screens[i], now) {
                let _ = self.screens.remove(i);
                removed += 1;
                assert(self@ =~= before.remove(i as int));
                assert(self@ =~= survivors_upto(all, now, k + 1) + all.skip(k + 1));
            } else {
                assert(self@ =~= survivors_upto(all, now, k + 1) + all.skip(k + 1));
                i += 1;
            }
            proof {
                k = k + 1;
            }
        }
        assert(k == all.len());
        assert(self@ =~= survivors(all, now));
        proof {
            lemma_survivors_keep_distinct_names(all, now, all.len() as int);
        }
        removed
    }
}

/// What is known of the position that `index_from` gives.
pub proof fn lemma_index_from<H>(screens: Seq<ScreenView<H>>, name: Seq<char>, from: int)
    requires
        0 <= from,
    ensures
        match index_from(screens, name, from) {
            Some(i) => from <= i < screens.len() && screens[i].name == name && forall|j: int|
                from <= j < i ==> (#[trigger] screens[j]).name != name,
            None => forall|j: int| from <= j < screens.len() ==> (#[trigger] screens[j]).name != name,
        },
    decreases screens.len() - from,
{
    if from < screens.len() && screens[from].name != name {
        lemma_index_from(screens, name, from + 1);
    }
}

/// The number that the bits of `n` denote when read as unsigned.
pub open spec fn wrapped_u32(n: i32) -> u32 {
    if n >= 0 {
        n as u32
    } else {
        (n + 0x1_0000_0000) as u32
    }
}

fn wrap_u32(n: i32) -> (r: u32)
    ensures
        r == wrapped_u32(n),
{
    if n >= 0 {
        n as u32
    } else {
        ((n as i64) + 0x1_0000_0000) as u32
    }
}

fn screen_is_stale<H>(screen: &VirtualScreen<H>, now: u64) -> (r: bool)
    ensures
        r == is_stale(screen@, now),
{
    let elapsed: u64 = if now >= screen.last_heartbeat {
        now - screen.last_heartbeat
    } else {
        0
    };
    (elapsed as u128) > (screen.timeout_secs as u128) * 1000
}

/// Every screen that a sweep keeps was there before, among the first `k`.
pub proof fn lemma_survivors_were_there<H>(screens: Seq<ScreenView<H>>, now: u64, k: int, m: int)
    requires
        0 <= k <= screens.len(),
        0 <= m < survivors_upto(screens, now, k).len(),
    ensures
        exists|j: int|
            0 <= j < k && screens[j] == survivors_upto(screens, now, k)[m] && !is_stale(
                screens[j],
                now,
            ),
    decreases k,
{
    if k > 0 {
        let before = survivors_upto(screens, now, k - 1);
        if m < before.len() {
            lemma_survivors_were_there(screens, now, k - 1, m);
            let j = choose|j: int|
                0 <= j < k - 1 && screens[j] == before[m] && !is_stale(screens[j], now);
            assert(0 <= j < k && screens[j] == survivors_upto(screens, now, k)[m]);
        } else {
            assert(screens[k - 1] == survivors_upto(screens, now, k)[m]);
        }
    }
}

/// A sweep leaves the registry in order.
pub proof fn lemma_survivors_keep_distinct_names<H>(screens: Seq<ScreenView<H>>, now: u64, k: int)
    requires
        0 <= k <= screens.len(),
        distinct_names(screens),
    ensures
        distinct_names(survivors_upto(screens, now, k)),
    decreases k,
{
    if k > 0 {
        lemma_survivors_keep_distinct_names(screens, now, k - 1);
        let before = survivors_upto(screens, now, k - 1);
        let after = survivors_upto(screens, now, k);
        assert forall|i: int, j: int| 0 <= i < j < after.len() implies (#[trigger] after[i]).name != (
        #[trigger] after[j]).name by {
            if j < before.len() {
                assert(after[i] == before[i] && after[j] == before[j]);
            } else {
                lemma_survivors_were_there(screens, now, k - 1, i);
                let w = choose|w: int|
                    0 <= w < k - 1 && screens[w] == before[i] && !is_stale(screens[w], now);
                assert(screens[w].name != screens[k - 1].name);
            }
        }
    }
}

/// Every screen that a sweep removes was there before, among the first `k`.
pub proof fn lemma_reaped_were_there<H>(screens: Seq<ScreenView<H>>, now: u64, k: int, m: int)
    requires
        0 <= k <= screens.len(),
        0 <= m < stale_upto(screens, now, k).len(),
    ensures
        exists|j: int|
            0 <= j < k && screens[j] == stale_upto(screens, now, k)[m] && is_stale(screens[j], now),
    decreases k,
{
    if k > 0 {
        let before = stale_upto(screens, now, k - 1);
        if m < before.len() {
            lemma_reaped_were_there(screens, now, k - 1, m);
            let j = choose|j: int|
                0 <= j < k - 1 && screens[j] == before[m] && is_stale(screens[j], now);
            assert(0 <= j < k && screens[j] == stale_upto(screens, now, k)[m]);
        } else {
            assert(screens[k - 1] == stale_upto(screens, now, k)[m]);
        }
    }
}

/// No two screens that a sweep removes have the same name.
pub proof fn lemma_reaped_have_distinct_names<H>(screens: Seq<ScreenView<H>>, now: u64, k: int)
    requires
        0 <= k <= screens.len(),
        distinct_names(screens),
    ensures
        distinct_names(stale_upto(screens, now, k)),
    decreases k,
{
    if k > 0 {
        lemma_reaped_have_distinct_names(screens, now, k - 1);
        let before = stale_upto(screens, now, k - 1);
        let after = stale_upto(screens, now, k);
        assert forall|i: int, j: int| 0 <= i < j < after.len() implies (#[trigger] after[i]).name != (
        #[trigger] after[j]).name by {
            if j < before.len() {
                assert(after[i] == before[i] && after[j] == before[j]);
            } else {
                lemma_reaped_were_there(screens, now, k - 1, i);
                let w = choose|w: int|
                    0 <= w < k - 1 && screens[w] == before[i] && is_stale(screens[w], now);
                assert(screens[w].name != screens[k - 1].name);
            }
        }
    }
}

/// A stale screen among the first `k` is among those that a sweep removes.
pub proof fn lemma_stale_is_reaped<H>(screens: Seq<ScreenView<H>>, now: u64, k: int, i: int)
    requires
        0 <= i < k <= screens.len(),
        is_stale(screens[i], now),
    ensures
        exists|m: int|
            0 <= m < stale_upto(screens, now, k).len() && stale_upto(screens, now, k)[m]
                == screens[i],
    decreases k,
{
    let after = stale_upto(screens, now, k);
    if i == k - 1 {
        assert(after[after.len() - 1] == screens[i]);
    } else {
        lemma_stale_is_reaped(screens, now, k - 1, i);
        let before = stale_upto(screens, now, k - 1);
        let m = choose|m: int| 0 <= m < before.len() && before[m] == screens[i];
        assert(after[m] == screens[i]);
    }
}

/// A screen among the first `k` that is not stale is among those that a sweep
/// keeps.
pub proof fn lemma_fresh_is_kept<H>(screens: Seq<ScreenView<H>>, now: u64, k: int, i: int)
    requires
        0 <= i < k <= screens.len(),
        !is_stale(screens[i], now),
    ensures
        exists|m: int|
            0 <= m < survivors_upto(screens, now, k).len() && survivors_upto(screens, now, k)[m]
                == screens[i],
    decreases k,
{
    let after = survivors_upto(screens, now, k);
    if i == k - 1 {
        assert(after[after.len() - 1] == screens[i]);
    } else {
        lemma_fresh_is_kept(screens, now, k - 1, i);
        let before = survivors_upto(screens, now, k - 1);
        let m = choose|m: int| 0 <= m < before.len() && before[m] == screens[i];
        assert(after[m] == screens[i]);
    }
}

/// A screen that has not been heard of for longer than its timeout is gone
/// after one sweep: no screen that is left has its name. It is among the
/// screens offered for release before the sweep, and only once, since no two
/// of those have the same name.
pub proof fn lemma_sweep_removes_stale<H>(screens: Seq<ScreenView<H>>, now: u64, i: int)
    requires
        distinct_names(screens),
        0 <= i < screens.len(),
        is_stale(screens[i], now),
    ensures
        index_of(survivors(screens, now), screens[i].name) is None,
        exists|m: int|
            0 <= m < reaped(screens, now).len() && reaped(screens, now)[m] == screens[i],
        distinct_names(reaped(screens, now)),
{
    let name = screens[i].name;
    let kept = survivors(screens, now);
    lemma_index_from(kept, name, 0);
    if index_of(kept, name) is Some {
        let m = index_of(kept, name)->0;
        lemma_survivors_were_there(screens, now, screens.len() as int, m);
        let j = choose|j: int|
            0 <= j < screens.len() && screens[j] == kept[m] && !is_stale(screens[j], now);
        assert(j != i);
        if j < i {
            assert(screens[j].name != screens[i].name);
        } else {
            assert(screens[i].name != screens[j].name);
        }
    }
    lemma_stale_is_reaped(screens, now, screens.len() as int, i);
    let gone = stale_upto(screens, now, screens.len() as int);
    let m = choose|m: int| 0 <= m < gone.len() && gone[m] == screens[i];
    assert(0 <= m < reaped(screens, now).len() && reaped(screens, now)[m] == screens[i]);
    lemma_reaped_have_distinct_names(screens, now, screens.len() as int);
}

/// A screen that was heard of within its timeout is still there after a
/// sweep, as it was.
pub proof fn lemma_sweep_keeps_fresh<H>(screens: Seq<ScreenView<H>>, now: u64, i: int)
    requires
        distinct_names(screens),
        0 <= i < screens.len(),
        !is_stale(screens[i], now),
    ensures
        index_of(survivors(screens, now), screens[i].name) is Some,
        survivors(screens, now)[index_of(survivors(screens, now), screens[i].name)->0]
            == screens[i],
{
    let name = screens[i].name;
    let kept = survivors(screens, now);
    lemma_fresh_is_kept(screens, now, screens.len() as int, i);
    let m = choose|m: int| 0 <= m < kept.len() && kept[m] == screens[i];
    lemma_index_from(kept, name, 0);
    lemma_survivors_keep_distinct_names(screens, now, screens.len() as int);
    let found = index_of(kept, name)->0;
    if found < m {
        assert(kept[found].name != kept[m].name);
    } else if m < found {
        assert(kept[m].name != kept[found].name);
    }
}

/// Asking for a screen a second time gives the screen of the first time: once
/// a screen has been entered, a request of the same name finds it, with the
/// size and the package of the request that made it, whatever size and
/// package the later request names.
pub proof fn lemma_second_create_returns_first<H>(
    screens: Seq<ScreenView<H>>,
    first: crate::types::CreateScreenRequestView,
    instance: H,
    display_id: i32,
    package: Seq<char>,
    then: u64,
    second: crate::types::CreateScreenRequestView,
)
    requires
        index_of(screens, first.name) is None,
        second.name == first.name,
    ensures
        ({
            let entered = fresh_screen(
                first.name,
                first.width,
                first.height,
                first.dpi,
                first.timeout_secs,
                instance,
                display_id,
                package,
                then,
            );
            let after = screens.push(entered);
            &&& index_of(after, second.name) == Some(screens.len() as int)
            &&& info_of(after[screens.len() as int]) == (ScreenInfoView {
                name: first.name,
                display_id,
                width: first.width,
                height: first.height,
                dpi: first.dpi,
                assigned_package: package,
            })
        }),
{
    let entered = fresh_screen(
        first.name,
        first.width,
        first.height,
        first.dpi,
        first.timeout_secs,
        instance,
        display_id,
        package,
        then,
    );
    let after = screens.push(entered);
    lemma_index_from(screens, first.name, 0);
    lemma_index_from(after, first.name, 0);
    assert(after[screens.len() as int].name == first.name);
    assert forall|j: int| 0 <= j < screens.len() implies (#[trigger] after[j]).name
        != first.name by {
        assert(after[j] == screens[j]);
    }
}

/// The time at which a screen was last heard of never goes back, whatever
/// time is handed in, and is never before that time; nothing else of the
/// screen changes.
pub proof fn lemma_heartbeat_never_goes_back<H>(s: ScreenView<H>, now: u64)
    ensures
        touched(s, now).last_heartbeat >= s.last_heartbeat,
        touched(s, now).last_heartbeat >= now,
        touched(s, now) == (ScreenView { last_heartbeat: touched(s, now).last_heartbeat, ..s }),
        info_of(touched(s, now)) == info_of(s),
{
}

/// A sweep removes what was offered for release and nothing else: every
/// screen of the registry is either among those offered, and then gone, or
/// among those kept, and no screen is both.
pub proof fn lemma_sweep_parts<H>(screens: Seq<ScreenView<H>>, now: u64, k: int)
    requires
        0 <= k <= screens.len(),
    ensures
        survivors_upto(screens, now, k).len() + stale_upto(screens, now, k).len() == k,
    decreases k,
{
    if k > 0 {
        lemma_sweep_parts(screens, now, k - 1);
    }
}

} // verus!
