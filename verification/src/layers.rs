//! The stack of layers of the user interface.
use crate::editor_view::Position;
use crate::graphics::CursorKind;
use crate::graphics::Rect;
use crate::input::EventResult;
use crate::input::KeyEvent;
use crate::strings::str_eq;
use vstd::prelude::*;
use vstd::string::*;

verus! {

/// A layer: a component with the name of its kind, and a name of its own if it can be addressed.
pub struct Layer<T> {
    pub id: Option<&'static str>,
    pub kind: &'static str,
    pub component: T,
}

/// The stack of layers; events reach the last one first.
pub struct LayerState<T> {
    pub layers: Vec<Layer<T>>,
    /// The picker that was closed last, so that it can be opened again.
    pub last_picker: Option<Layer<T>>,
    pub full_redraw: bool,
    pub area: Rect,
    /// Keys that are to be played back.
    pub pending_keys: Vec<KeyEvent>,
}

/// The text of an optional name.
pub open spec fn id_text(id: Option<&'static str>) -> Option<Seq<char>> {
    match id {
        Some(s) => Some(s@),
        None => None,
    }
}

/// The first layer from `i` on with a name.
pub open spec fn layer_named<T>(layers: Seq<Layer<T>>, id: Seq<char>, i: int) -> Option<int>
    decreases layers.len() - i,
{
    if i < 0 || i >= layers.len() {
        None
    } else if id_text(layers[i].id) == Some(id) {
        Some(i)
    } else {
        layer_named(layers, id, i + 1)
    }
}

/// The first layer from `i` on of a kind.
pub open spec fn layer_typed<T>(layers: Seq<Layer<T>>, kind: Seq<char>, i: int) -> Option<int>
    decreases layers.len() - i,
{
    if i < 0 || i >= layers.len() {
        None
    } else if layers[i].kind@ == kind {
        Some(i)
    } else {
        layer_typed(layers, kind, i + 1)
    }
}

/// The first `n` layers without those of a kind.
pub open spec fn without_type<T>(layers: Seq<Layer<T>>, kind: Seq<char>, n: int) -> Seq<Layer<T>>
    decreases n,
{
    if n <= 0 {
        Seq::empty()
    } else if layers[n - 1].kind@ == kind {
        without_type(layers, kind, n - 1)
    } else {
        without_type(layers, kind, n - 1).push(layers[n - 1])
    }
}

fn same_id(id: Option<&'static str>, wanted: &str) -> (r: bool)
    ensures
        r == (id_text(id) == Some(wanted@)),
{
    match id {
        Some(s) => str_eq(s, wanted),
        None => false,
    }
}

impl<T> LayerState<T> {
    pub fn new(area: Rect) -> (r: Self)
        ensures
            r.layers@ == Seq::<Layer<T>>::empty(),
            r.last_picker is None,
            !r.full_redraw,
            r.area == area,
            r.pending_keys@ == Seq::<KeyEvent>::empty(),
    {
        LayerState {
            layers: Vec::new(),
            last_picker: None,
            full_redraw: false,
            area,
            pending_keys: Vec::new(),
        }
    }

    /// All but the layers and the last picker is the same.
    pub open spec fn same_rest(self, other: LayerState<T>) -> bool {
        &&& self.full_redraw == other.full_redraw
        &&& self.area == other.area
        &&& self.pending_keys == other.pending_keys
    }

    /// Puts a layer on top; a new picker lets the last one be forgotten. Gives the size that the
    /// layer has to get along with.
    pub fn push_layer(&mut self, layer: Layer<T>) -> (r: (u16, u16))
        ensures
            final(self).layers@ == old(self).layers@.push(layer),
            final(self).last_picker == if id_text(layer.id) == Some("picker"@) {
                None
            } else {
                old(self).last_picker
            },
            final(self).same_rest(*old(self)),
            r == (old(self).area.width, old(self).area.height),
    {
        if same_id(layer.id, "picker") {
            self.last_picker = None;
        }
        self.layers.push(layer);
        (self.area.width, self.area.height)
    }

    /// Where the first layer with a name stands.
    pub fn find_layer_id(&self, id: &str) -> (r: Option<usize>)
        ensures
            match r {
                Some(i) => layer_named(self.layers@, id@, 0) == Some(i as int) && i
                    < self.layers@.len() && id_text(self.layers@[i as int].id) == Some(id@),
                None => layer_named(self.layers@, id@, 0) is None,
            },
    {
        let mut i: usize = 0;
        while i < self.layers.len()
            invariant
                i <= self.layers@.len(),
                layer_named(self.layers@, id@, 0) == layer_named(self.layers@, id@, i as int),
            decreases self.layers@.len() - i,
        {
            if same_id(self.layers[i].id, id) {
                return Some(i);
            }
            i = i + 1;
        }
        None
    }

    /// Where the first layer of a kind stands.
    pub fn find_layer(&self, kind: &str) -> (r: Option<usize>)
        ensures
            match r {
                Some(i) => layer_typed(self.layers@, kind@, 0) == Some(i as int) && i
                    < self.layers@.len() && self.layers@[i as int].kind@ == kind@,
                None => layer_typed(self.layers@, kind@, 0) is None,
            },
    {
        let mut i: usize = 0;
        while i < self.layers.len()
            invariant
                i <= self.layers@.len(),
                layer_typed(self.layers@, kind@, 0) == layer_typed(
                    self.layers@,
                    kind@,
                    i as int,
                ),
            decreases self.layers@.len() - i,
        {
            if str_eq(self.layers[i].kind, kind) {
                return Some(i);
            }
            i = i + 1;
        }
        None
    }

    /// Whether there is a layer of a kind.
    pub fn has_layer(&self, kind: &str) -> (r: bool)
        ensures
            r == (layer_typed(self.layers@, kind@, 0) is Some),
    {
        self.find_layer(kind).is_some()
    }

    /// Puts a layer in place of the first one named `id` if that is of the same kind, else on top.
    pub fn replace_or_push_layer(&mut self, id: &str, layer: Layer<T>)
        ensures
            final(self).same_rest(*old(self)),
            final(self).layers@ == layers_with(old(self).layers@, id@, layer),
            match layer_named(old(self).layers@, id@, 0) {
                Some(i) => if old(self).layers@[i].kind@ == layer.kind@ {
                    final(self).layers@ == old(self).layers@.update(i, layer) && final(
                        self).last_picker == old(self).last_picker
                } else {
                    final(self).layers@ == old(self).layers@.push(layer) && final(
                        self).last_picker == (if id_text(layer.id) == Some("picker"@) {
                        None
                    } else {
                        old(self).last_picker
                    })
                },
                None => final(self).layers@ == old(self).layers@.push(layer) && final(
                    self).last_picker == (if id_text(layer.id) == Some("picker"@) {
                    None
                } else {
                    old(self).last_picker
                }),
            },
    {
        match self.find_layer_id(id) {
            Some(i) => {
                if str_eq(self.layers[i].kind, layer.kind) {
                    self.layers.set(i, layer);
                } else {
                    let _size = self.push_layer(layer);
                }
            },
            None => {
                let _size = self.push_layer(layer);
            },
        }
    }

    /// Takes the top layer off.
    pub fn pop_layer(&mut self) -> (r: Option<Layer<T>>)
        ensures
            final(self).same_rest(*old(self)),
            final(self).last_picker == old(self).last_picker,
            match r {
                Some(l) => old(self).layers@.len() > 0 && l == old(self).layers@.last() && final(
                    self).layers@ == old(self).layers@.drop_last(),
                None => old(self).layers@.len() == 0 && final(self).layers@ == old(self).layers@,
            },
    {
        self.layers.pop()
    }

    /// Takes the first layer named `id` out.
    pub fn remove_layer(&mut self, id: &str) -> (r: Option<Layer<T>>)
        ensures
            final(self).same_rest(*old(self)),
            final(self).last_picker == old(self).last_picker,
            match layer_named(old(self).layers@, id@, 0) {
                Some(i) => r == Some(old(self).layers@[i]) && final(self).layers@ == old(
                    self).layers@.remove(i),
                None => r is None && final(self).layers@ == old(self).layers@,
            },
    {
        match self.find_layer_id(id) {
            Some(i) => Some(self.layers.remove(i)),
            None => None,
        }
    }

    /// Takes all layers of a kind out.
    pub fn remove_layer_type(&mut self, kind: &str)
        ensures
            final(self).same_rest(*old(self)),
            final(self).last_picker == old(self).last_picker,
            final(self).layers@ == without_type(
                old(self).layers@,
                kind@,
                old(self).layers@.len() as int,
            ),
    {
        let ghost all = self.layers@;
        let mut taken: Vec<Layer<T>> = Vec::new();
        std::mem::swap(&mut self.layers, &mut taken);
        let mut rest: Vec<Layer<T>> = Vec::new();
        for layer in it: taken
            invariant
                it.seq() == all,
                rest@ == without_type(all, kind@, it.index() as int),
        {
            assert(all[it.index() as int] == layer);
            if !str_eq(layer.kind, kind) {
                rest.push(layer);
            }
        }
        self.layers = rest;
    }

    /// Asks for everything to be drawn anew.
    pub fn need_full_redraw(&mut self)
        ensures
            *final(self) == (LayerState { full_redraw: true, ..*old(self) }),
    {
        self.full_redraw = true;
    }

    pub fn layer_area(&self) -> (r: Rect)
        ensures
            r == self.area,
    {
        self.area
    }

    pub fn resize_layers(&mut self, area: Rect)
        ensures
            *final(self) == (LayerState { area, ..*old(self) }),
    {
        self.area = area;
    }

    /// Queues keys that are to be played back, behind those that wait already.
    pub fn queue_macro_keys(&mut self, keys: &Vec<KeyEvent>)
        ensures
            final(self).pending_keys@ == old(self).pending_keys@ + keys@,
            final(self).layers == old(self).layers,
            final(self).last_picker == old(self).last_picker,
            final(self).full_redraw == old(self).full_redraw,
            final(self).area == old(self).area,
    {
        let ghost before = self.pending_keys@;
        let mut i: usize = 0;
        assert(before + keys@.take(0) =~= before);
        while i < keys.len()
            invariant
                i <= keys@.len(),
                before == old(self).pending_keys@,
                self.pending_keys@ == before + keys@.take(i as int),
                self.layers == old(self).layers,
                self.last_picker == old(self).last_picker,
                self.full_redraw == old(self).full_redraw,
                self.area == old(self).area,
            decreases keys@.len() - i,
        {
            self.pending_keys.push(keys[i]);
            i = i + 1;
            assert(self.pending_keys@ =~= before + keys@.take(i as int));
        }
        assert(keys@.take(keys@.len() as int) =~= keys@);
    }

    /// Takes all queued keys.
    pub fn drain_pending_keys(&mut self) -> (r: Vec<KeyEvent>)
        ensures
            r@ == old(self).pending_keys@,
            final(self).pending_keys@ == Seq::<KeyEvent>::empty(),
            final(self).layers == old(self).layers,
            final(self).last_picker == old(self).last_picker,
            final(self).full_redraw == old(self).full_redraw,
            final(self).area == old(self).area,
    {
        let mut keys: Vec<KeyEvent> = Vec::new();
        std::mem::swap(&mut self.pending_keys, &mut keys);
        keys
    }
}

/// What a layer did with an event: whether it is used up, and whether it left a callback.
#[derive(Debug, Clone, Copy, PartialEq, Eq, Structural)]
pub struct LayerAnswer {
    pub result: EventResult,
    pub callback: bool,
}

/// How many layers are asked, from the top: up to the first one that uses the event up.
pub open spec fn asked(answers: Seq<LayerAnswer>, i: int) -> int
    decreases answers.len() - i,
{
    if i < 0 || i >= answers.len() {
        i
    } else if answers[i].result == EventResult::Consumed {
        i + 1
    } else {
        asked(answers, i + 1)
    }
}

/// The layers among the first `n` that left a callback.
pub open spec fn callbacks_of(answers: Seq<LayerAnswer>, n: int) -> Seq<int>
    decreases n,
{
    if n <= 0 {
        Seq::empty()
    } else if answers[n - 1].callback {
        callbacks_of(answers, n - 1).push(n - 1)
    } else {
        callbacks_of(answers, n - 1)
    }
}

/// The course of one event through the layers, from the top down.
#[derive(Debug)]
pub struct LayerDispatch {
    pub answers: Vec<LayerAnswer>,
    pub consumed: bool,
}

impl LayerDispatch {
    /// No layer has used the event up, unless it was the last one.
    pub open spec fn wf(self) -> bool {
        &&& asked(self.answers@, 0) == self.answers@.len()
        &&& self.consumed == (self.answers@.len() > 0 && self.answers@.last().result
            == EventResult::Consumed)
    }

    pub fn new() -> (r: Self)
        ensures
            r.wf(),
            r.answers@ == Seq::<LayerAnswer>::empty(),
    {
        LayerDispatch { answers: Vec::new(), consumed: false }
    }

    /// Takes the answer of the next layer; tells whether the layer below it is asked, too.
    pub fn answer(&mut self, answer: LayerAnswer) -> (r: bool)
        requires
            old(self).wf(),
            !old(self).consumed,
        ensures
            final(self).wf(),
            final(self).answers@ == old(self).answers@.push(answer),
            r == (answer.result == EventResult::Ignored),
    {
        let ghost before = self.answers@;
        self.answers.push(answer);
        self.consumed = answer.result == EventResult::Consumed;
        proof {
            lemma_asked_push(before, answer, 0);
        }
        answer.result == EventResult::Ignored
    }

    /// Ends the course: gives the layers whose callbacks are to be run, counted from the top, and
    /// whether the screen is to be drawn.
    pub fn finish(&self, needs_redraw: bool) -> (r: (Vec<usize>, bool))
        requires
            self.wf(),
        ensures
            r.0@.map_values(|i: usize| i as int) == callbacks_of(
                self.answers@,
                self.answers@.len() as int,
            ),
            r.1 == (self.consumed || needs_redraw),
    {
        let mut out: Vec<usize> = Vec::new();
        let mut i: usize = 0;
        assert(out@.map_values(|i: usize| i as int) =~= Seq::empty());
        while i < self.answers.len()
            invariant
                i <= self.answers@.len(),
                out@.map_values(|i: usize| i as int) == callbacks_of(self.answers@, i as int),
            decreases self.answers@.len() - i,
        {
            let ghost before = out@;
            if self.answers[i].callback {
                out.push(i);
                assert(out@.map_values(|i: usize| i as int) =~= before.map_values(
                    |i: usize| i as int,
                ).push(i as int));
            }
            i = i + 1;
        }
        (out, self.consumed || needs_redraw)
    }
}

proof fn lemma_asked_push(answers: Seq<LayerAnswer>, answer: LayerAnswer, i: int)
    requires
        0 <= i <= answers.len(),
        asked(answers, i) == answers.len(),
        answers.len() > 0 ==> answers.last().result != EventResult::Consumed,
    ensures
        asked(answers.push(answer), i) == answers.len() + 1,
    decreases answers.len() - i,
{
    let all = answers.push(answer);
    if i < answers.len() {
        assert(all[i] == answers[i]);
        if answers[i].result == EventResult::Consumed {
            assert(i == answers.len() - 1);
        } else {
            lemma_asked_push(answers, answer, i + 1);
        }
    } else {
        assert(all[i] == answer);
        assert(asked(all, i + 1) == i + 1);
    }
}

/// No layer below one that used an event up sees it.
pub proof fn law_consumed_event_stops(answers: Seq<LayerAnswer>, i: int)
    requires
        0 <= i < answers.len(),
        answers[i].result == EventResult::Consumed,
    ensures
        asked(answers, 0) <= i + 1,
{
    lemma_asked_stops(answers, 0, i);
}

proof fn lemma_asked_stops(answers: Seq<LayerAnswer>, k: int, i: int)
    requires
        0 <= k <= i < answers.len(),
        answers[i].result == EventResult::Consumed,
    ensures
        asked(answers, k) <= i + 1,
    decreases i - k,
{
    if answers[k].result != EventResult::Consumed {
        lemma_asked_stops(answers, k + 1, i);
    }
}

/// The first cursor from `i` on that has a position, with its kind.
pub open spec fn first_cursor(cursors: Seq<(Option<Position>, CursorKind)>, i: int) -> (
    Option<Position>,
    CursorKind,
)
    decreases cursors.len() - i,
{
    if i < 0 || i >= cursors.len() {
        (None, CursorKind::Hidden)
    } else if cursors[i].0 is Some {
        cursors[i]
    } else {
        first_cursor(cursors, i + 1)
    }
}

/// The cursor that is shown: that of the topmost layer that has one. `cursors` holds those of the
/// layers, from the top.
pub fn layer_cursor(cursors: &Vec<(Option<Position>, CursorKind)>) -> (r: (
    Option<Position>,
    CursorKind,
))
    ensures
        r == first_cursor(cursors@, 0),
{
    let mut i: usize = 0;
    while i < cursors.len()
        invariant
            i <= cursors@.len(),
            first_cursor(cursors@, 0) == first_cursor(cursors@, i as int),
        decreases cursors@.len() - i,
    {
        let (pos, kind) = cursors[i];
        if pos.is_some() {
            return (pos, kind);
        }
        i = i + 1;
    }
    (None, CursorKind::Hidden)
}

/// A layer put on top is found by its name, if no other layer has that name.
pub proof fn law_pushed_layer_is_found<T>(layers: Seq<Layer<T>>, layer: Layer<T>, id: Seq<char>)
    requires
        layer_named(layers, id, 0) is None,
        id_text(layer.id) == Some(id),
    ensures
        layer_named(layers.push(layer), id, 0) == Some(layers.len() as int),
{
    lemma_named_push(layers, layer, id, 0);
}

proof fn lemma_named_push<T>(layers: Seq<Layer<T>>, layer: Layer<T>, id: Seq<char>, i: int)
    requires
        0 <= i <= layers.len(),
        layer_named(layers, id, i) is None,
        id_text(layer.id) == Some(id),
    ensures
        layer_named(layers.push(layer), id, i) == Some(layers.len() as int),
    decreases layers.len() - i,
{
    if i < layers.len() {
        assert(layers.push(layer)[i] == layers[i]);
        lemma_named_push(layers, layer, id, i + 1);
    }
}

proof fn lemma_none_typed<T>(layers: Seq<Layer<T>>, kind: Seq<char>, i: int, j: int)
    requires
        0 <= i <= j < layers.len(),
        layer_typed(layers, kind, i) is None,
    ensures
        layers[j].kind@ != kind,
    decreases j - i,
{
    if i < j {
        lemma_none_typed(layers, kind, i + 1, j);
    }
}

proof fn lemma_keeps_prefix<T>(layers: Seq<Layer<T>>, kind: Seq<char>, n: int)
    requires
        0 <= n <= layers.len(),
        layer_typed(layers, kind, 0) is None,
    ensures
        without_type(layers, kind, n) == layers.take(n),
    decreases n,
{
    if n > 0 {
        lemma_keeps_prefix(layers, kind, n - 1);
        lemma_none_typed(layers, kind, 0, n - 1);
        assert(layers.take(n) =~= layers.take(n - 1).push(layers[n - 1]));
    } else {
        assert(layers.take(0) =~= Seq::empty());
    }
}

/// Taking off all layers of a kind that no layer is of changes nothing.
pub proof fn law_absent_kind_keeps_layers<T>(layers: Seq<Layer<T>>, kind: Seq<char>)
    requires
        layer_typed(layers, kind, 0) is None,
    ensures
        without_type(layers, kind, layers.len() as int) == layers,
{
    lemma_keeps_prefix(layers, kind, layers.len() as int);
    assert(layers.take(layers.len() as int) =~= layers);
}

/// The layer that is found by a name is the lowest one with that name.
pub proof fn law_layer_is_found_by_its_name<T>(layers: Seq<Layer<T>>, id: Seq<char>, i: int)
    requires
        0 <= i <= layers.len(),
    ensures
        match layer_named(layers, id, i) {
            Some(k) => i <= k < layers.len() && (layers[(k as int)].id matches Some(own) && own@ == id) && (forall|m: int|
                #![trigger layers[m]]
                i <= m < k ==> !((layers[m].id matches Some(own) && own@ == id))),
            None => forall|m: int| #![trigger layers[m]] i <= m < layers.len() ==> !((layers[m].id matches Some(own) && own@ == id)),
        },
    decreases layers.len() - i,
{
    if i < layers.len() && !((layers[i].id matches Some(own) && own@ == id)) {
        law_layer_is_found_by_its_name(layers, id, i + 1);
    }
}

/// The layer that is found by a kind is the lowest one of that kind.
pub proof fn law_layer_is_found_by_its_kind<T>(layers: Seq<Layer<T>>, kind: Seq<char>, i: int)
    requires
        0 <= i <= layers.len(),
    ensures
        match layer_typed(layers, kind, i) {
            Some(k) => i <= k < layers.len() && layers[(k as int)].kind@ == kind && (forall|m: int|
                #![trigger layers[m]]
                i <= m < k ==> !(layers[m].kind@ == kind)),
            None => forall|m: int| #![trigger layers[m]] i <= m < layers.len() ==> !(layers[m].kind@ == kind),
        },
    decreases layers.len() - i,
{
    if i < layers.len() && !(layers[i].kind@ == kind) {
        law_layer_is_found_by_its_kind(layers, kind, i + 1);
    }
}

/// Removing the layers of a kind keeps all others, in their order.
pub proof fn law_layers_of_other_kinds_stay<T>(layers: Seq<Layer<T>>, kind: Seq<char>, n: int)
    requires
        0 <= n <= layers.len(),
    ensures
        without_type(layers, kind, n) == layers.take(n).filter(|x: Layer<T>| x.kind@ != kind),
    decreases n,
{
    reveal(Seq::filter);
    if n > 0 {
        law_layers_of_other_kinds_stay(layers, kind, n - 1);
        assert(layers.take(n).drop_last() =~= layers.take(n - 1));
    } else {
        assert(layers.take(n) =~= Seq::empty());
        assert(without_type(layers, kind, n) =~= layers.take(n).filter(|x: Layer<T>| x.kind@ != kind));
    }
}

/// The callbacks that are run are those that layers left, in the order in which they were asked.
pub proof fn law_callbacks_run_in_order(answers: Seq<LayerAnswer>, n: int)
    requires
        0 <= n <= answers.len(),
    ensures
        forall|k: int|
            #![trigger callbacks_of(answers, n).contains(k)]
            0 <= k < n ==> (callbacks_of(answers, n).contains(k) <==> (answers[k].callback)),
        forall|a: int|
            0 <= a < callbacks_of(answers, n).len() ==> 0 <= #[trigger] callbacks_of(answers, n)[a] < n,
        forall|a: int, b: int|
            0 <= a < b < callbacks_of(answers, n).len() ==> #[trigger] callbacks_of(answers, n)[a] < #[trigger] callbacks_of(answers, n)[b],
    decreases n,
{
    if n > 0 {
        law_callbacks_run_in_order(answers, n - 1);
        let prev = callbacks_of(answers, n - 1);
        let all = callbacks_of(answers, n);
        assert forall|k: int|
            #![trigger all.contains(k)]
            0 <= k < n implies (all.contains(k) <==> (answers[k].callback)) by {
            if k < n - 1 {
                if prev.contains(k) {
                    let a = choose|a: int| 0 <= a < prev.len() && prev[a] == k;
                    assert(all[a] == k);
                }
                if all.contains(k) {
                    let a = choose|a: int| 0 <= a < all.len() && all[a] == k;
                    assert(prev[a] == k);
                }
            } else {
                if all.len() > prev.len() {
                    assert(all[prev.len() as int] == k);
                } else if all.contains(k) {
                    let a = choose|a: int| 0 <= a < all.len() && all[a] == k;
                    assert(prev[a] < n - 1);
                }
            }
        }
    }
}

/// Layers are asked one after the other up to the first one that uses the event up: that one is the
/// last to be asked, and none before it used it up. If none does, all are asked.
pub proof fn law_asking_stops_at_the_first_use(answers: Seq<LayerAnswer>, i: int)
    requires
        0 <= i <= answers.len(),
    ensures
        i <= asked(answers, i) <= answers.len(),
        forall|k: int|
            i <= k < asked(answers, i) - 1 ==> (#[trigger] answers[k]).result != EventResult::Consumed,
        asked(answers, i) < answers.len() ==> asked(answers, i) > i && answers[asked(answers, i)
            - 1].result == EventResult::Consumed,
        forall|k: int|
            i <= k < answers.len() && (#[trigger] answers[k]).result == EventResult::Consumed
                ==> asked(answers, i) <= k + 1,
    decreases answers.len() - i,
{
    if i < answers.len() && answers[i].result != EventResult::Consumed {
        law_asking_stops_at_the_first_use(answers, i + 1);
    }
}

/// The cursor is that of the first layer that has one; without any it is hidden.
pub proof fn law_first_cursor_counts(cursors: Seq<(Option<Position>, CursorKind)>, i: int, k: int)
    requires
        0 <= i <= k <= cursors.len(),
        forall|m: int| i <= m < k ==> (#[trigger] cursors[m]).0 is None,
    ensures
        k < cursors.len() && cursors[k].0 is Some ==> first_cursor(cursors, i) == cursors[k],
        k == cursors.len() ==> first_cursor(cursors, i) == (None::<Position>, CursorKind::Hidden),
    decreases k - i,
{
    if i < k {
        law_first_cursor_counts(cursors, i + 1, k);
    }
}

/// The layers after a layer was put in place of the first one named `id`, or on top.
pub open spec fn layers_with<T>(layers: Seq<Layer<T>>, id: Seq<char>, layer: Layer<T>) -> Seq<Layer<T>> {
    match layer_named(layers, id, 0) {
        Some(i) => if layers[i].kind@ == layer.kind@ {
            layers.update(i, layer)
        } else {
            layers.push(layer)
        },
        None => layers.push(layer),
    }
}

/// Putting a layer in place of another one loses no other layer and brings the new one in, at most one
/// layer more; it takes the place of a layer only if that has the name and the same kind.
pub proof fn law_replaced_layer<T>(layers: Seq<Layer<T>>, id: Seq<char>, layer: Layer<T>, k: int)
    requires
        0 <= k < layers.len(),
    ensures
        ({
            let after = layers_with(layers, id, layer);
            &&& after.len() == layers.len() || after.len() == layers.len() + 1
            &&& after.contains(layer)
            &&& after[k] != layers[k] ==> after[k] == layer && after.len() == layers.len() && (layers[k].id
                matches Some(own) && own@ == id) && layers[k].kind@ == layer.kind@
            &&& after.len() == layers.len() + 1 ==> after.last() == layer
        }),
{
    law_layer_is_found_by_its_name(layers, id, 0);
    let after = layers_with(layers, id, layer);
    match layer_named(layers, id, 0) {
        Some(i) => if layers[i].kind@ == layer.kind@ {
            assert(after[i] == layer);
        } else {
            assert(after[layers.len() as int] == layer);
        },
        None => {
            assert(after[layers.len() as int] == layer);
        },
    }
}

} // verus!
