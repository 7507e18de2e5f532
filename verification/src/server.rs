//! Server state: the text and the classes of one script version together
//! with the route table derived from them, and the slot that holds the
//! current state and swaps it on reload.
//!
//! Routes are derived from names alone: method `m` of class `C` is served
//! at `/C/m`, whatever the request's method. The liveness endpoint
//! `/cloudstate/status` answers `GET` before the route table is consulted;
//! every other request falls through to the table. A state is built whole and never
//! changed afterwards; a reload replaces it as a whole or not at all.

use vstd::prelude::*;
use vstd::string::*;

verus! {

/// A class that a script exports, with the names of its invocable methods.
#[derive(Debug, PartialEq, Eq)]
pub struct ClassDef {
    pub name: String,
    pub methods: Vec<String>,
}

/// The mathematical content of a `ClassDef`.
pub struct ClassView {
    pub name: Seq<char>,
    pub methods: Seq<Seq<char>>,
}

/// One line of the route table: a path and the class method bound to it.
#[derive(Debug, PartialEq, Eq)]
pub struct Route {
    pub path: String,
    pub class: String,
    pub method: String,
}

/// The mathematical content of a `Route`.
pub struct RouteView {
    pub path: Seq<char>,
    pub class: Seq<char>,
    pub method: Seq<char>,
}

/// The method of an inbound request.
#[derive(Clone, Copy, Debug, PartialEq, Eq, Structural)]
pub enum Verb {
    Get,
    Post,
    Put,
    Patch,
    Delete,
    /// Any other method.
    Other,
}

/// What a request resolves to.
#[derive(Debug, PartialEq, Eq)]
pub enum Resolution {
    /// The liveness endpoint.
    Status,
    /// A method of a class, to be invoked with the request's body.
    Invoke { class: String, method: String },
    /// Nothing is served there.
    NotFound,
}

/// The mathematical content of a `Resolution`.
pub enum ResolutionView {
    Status,
    Invoke { class: Seq<char>, method: Seq<char> },
    NotFound,
}

impl ClassDef {
    pub open spec fn view(&self) -> ClassView {
        ClassView { name: self.name@, methods: Seq::new(self.methods@.len(), |j: int| self.methods@[j]@) }
    }
}

impl Route {
    pub open spec fn view(&self) -> RouteView {
        RouteView { path: self.path@, class: self.class@, method: self.method@ }
    }
}

impl Resolution {
    pub open spec fn view(&self) -> ResolutionView {
        match self {
            Resolution::Status => ResolutionView::Status,
            Resolution::Invoke { class, method } => ResolutionView::Invoke {
                class: class@,
                method: method@,
            },
            Resolution::NotFound => ResolutionView::NotFound,
        }
    }
}

/// The views of a list of classes.
pub open spec fn class_views(classes: Seq<ClassDef>) -> Seq<ClassView> {
    Seq::new(classes.len(), |i: int| classes[i]@)
}

/// The views of a list of routes.
pub open spec fn route_views(routes: Seq<Route>) -> Seq<RouteView> {
    Seq::new(routes.len(), |i: int| routes[i]@)
}

/// The path of the liveness endpoint.
pub open spec fn status_path() -> Seq<char> {
    "/cloudstate/status"@
}

/// The path at which `method` of `class` is served: `/class/method`.
pub open spec fn route_path(class: Seq<char>, method: Seq<char>) -> Seq<char> {
    seq!['/'] + class + seq!['/'] + method
}

/// The route of `method` of `class`.
pub open spec fn route_for(class: Seq<char>, method: Seq<char>) -> RouteView {
    RouteView { path: route_path(class, method), class, method }
}

/// The routes of one class: one for each method, in the methods' order.
pub open spec fn class_routes(c: ClassView) -> Seq<RouteView> {
    Seq::new(c.methods.len(), |j: int| route_for(c.name, c.methods[j]))
}

/// The route table of a list of classes: the routes of each class, in the
/// classes' order.
pub open spec fn routes_of(classes: Seq<ClassView>) -> Seq<RouteView>
    decreases classes.len(),
{
    if classes.len() == 0 {
        Seq::empty()
    } else {
        routes_of(classes.drop_last()) + class_routes(classes.last())
    }
}

/// The first route of `routes` at `path`, if there is one.
pub open spec fn find_route(routes: Seq<RouteView>, path: Seq<char>) -> Option<RouteView>
    decreases routes.len(),
{
    if routes.len() == 0 {
        None
    } else if routes[0].path == path {
        Some(routes[0])
    } else {
        find_route(routes.drop_first(), path)
    }
}

/// What a request with `verb` and `path` resolves to against `routes`:
/// the liveness endpoint for `GET` on its path; else the binding of the
/// first route at `path`, or nothing where there is none.
pub open spec fn resolution(routes: Seq<RouteView>, verb: Verb, path: Seq<char>) -> ResolutionView {
    if verb == Verb::Get && path == status_path() {
        ResolutionView::Status
    } else {
        match find_route(routes, path) {
            Some(r) => ResolutionView::Invoke { class: r.class, method: r.method },
            None => ResolutionView::NotFound,
        }
    }
}

/// Whether `name` holds no path separator.
pub open spec fn plain_name(name: Seq<char>) -> bool {
    forall|i: int| 0 <= i < name.len() ==> name[i] != '/'
}

/// The naming scheme is unambiguous: two methods whose class names hold
/// no path separator are served at the same path only if they are the
/// same method of the same class.
pub proof fn law_route_paths_distinct(
    class1: Seq<char>,
    method1: Seq<char>,
    class2: Seq<char>,
    method2: Seq<char>,
)
    requires
        plain_name(class1),
        plain_name(class2),
        route_path(class1, method1) == route_path(class2, method2),
    ensures
        class1 == class2,
        method1 == method2,
{
    let p1 = route_path(class1, method1);
    let p2 = route_path(class2, method2);
    if class1.len() < class2.len() {
        assert(p1[1 + class1.len() as int] == '/');
        assert(p2[1 + class1.len() as int] == class2[class1.len() as int]);
        assert(false);
    }
    if class2.len() < class1.len() {
        assert(p2[1 + class2.len() as int] == '/');
        assert(p1[1 + class2.len() as int] == class1[class2.len() as int]);
        assert(false);
    }
    assert forall|i: int| 0 <= i < class1.len() implies class1[i] == class2[i] by {
        assert(p1[1 + i] == class1[i]);
        assert(p2[1 + i] == class2[i]);
    }
    assert(class1 =~= class2);
    let q = 2 + class1.len();
    assert(p1.len() == q + method1.len());
    assert(p2.len() == q + method2.len());
    assert forall|i: int| 0 <= i < method1.len() implies method1[i] == method2[i] by {
        assert(p1[q + i] == method1[i]);
        assert(p2[q + i] == method2[i]);
    }
    assert(method1 =~= method2);
}

/// Whether `classes` holds a class named `class` with a method `method`.
pub open spec fn declares(classes: Seq<ClassView>, class: Seq<char>, method: Seq<char>) -> bool {
    exists|i: int, j: int|
        0 <= i < classes.len() && 0 <= j < classes[i].methods.len() && classes[i].name == class
            && #[trigger] classes[i].methods[j] == method
}

/// Every route of a derived table binds a method that the classes declare,
/// at the path that belongs to that method.
pub proof fn lemma_routes_sound(classes: Seq<ClassView>, k: int)
    requires
        0 <= k < routes_of(classes).len(),
    ensures
        declares(classes, routes_of(classes)[k].class, routes_of(classes)[k].method),
        routes_of(classes)[k] == route_for(routes_of(classes)[k].class, routes_of(classes)[k].method),
    decreases classes.len(),
{
    let earlier = classes.drop_last();
    let last = classes.last();
    let r = routes_of(classes)[k];
    if k < routes_of(earlier).len() {
        lemma_routes_sound(earlier, k);
        let (i, j) = choose|i: int, j: int|
            0 <= i < earlier.len() && 0 <= j < earlier[i].methods.len() && earlier[i].name
                == r.class && #[trigger] earlier[i].methods[j] == r.method;
        assert(classes[i].methods[j] == r.method);
    } else {
        let j = k - routes_of(earlier).len();
        assert(r == class_routes(last)[j]);
        assert(classes[classes.len() - 1].methods[j] == r.method);
    }
}

/// Every declared method has a route in the derived table.
pub proof fn lemma_routes_complete(classes: Seq<ClassView>, i: int, j: int)
    requires
        0 <= i < classes.len(),
        0 <= j < classes[i].methods.len(),
    ensures
        exists|k: int|
            0 <= k < routes_of(classes).len() && #[trigger] routes_of(classes)[k] == route_for(
                classes[i].name,
                classes[i].methods[j],
            ),
    decreases classes.len(),
{
    let earlier = classes.drop_last();
    let last = classes.last();
    let want = route_for(classes[i].name, classes[i].methods[j]);
    if i < earlier.len() {
        lemma_routes_complete(earlier, i, j);
        let k = choose|k: int|
            0 <= k < routes_of(earlier).len() && #[trigger] routes_of(earlier)[k] == route_for(
                earlier[i].name,
                earlier[i].methods[j],
            );
        assert(routes_of(classes)[k] == want);
    } else {
        let k = routes_of(earlier).len() + j;
        assert(class_routes(last)[j] == want);
        assert(routes_of(classes)[k] == want);
    }
}

/// What `find_route` gives is a route of the table at the path asked for.
pub proof fn lemma_found_route_is_member(routes: Seq<RouteView>, path: Seq<char>)
    ensures
        match find_route(routes, path) {
            Some(r) => r.path == path && exists|k: int|
                0 <= k < routes.len() && #[trigger] routes[k] == r,
            None => forall|k: int| 0 <= k < routes.len() ==> (#[trigger] routes[k]).path != path,
        },
    decreases routes.len(),
{
    if routes.len() == 0 {
    } else if routes[0].path == path {
        assert(routes[0] == routes[0]);
    } else {
        let rest = routes.drop_first();
        lemma_found_route_is_member(rest, path);
        match find_route(rest, path) {
            Some(r) => {
                let k = choose|k: int| 0 <= k < rest.len() && #[trigger] rest[k] == r;
                assert(routes[k + 1] == r);
            },
            None => {
                assert forall|k: int| 0 <= k < routes.len() implies (#[trigger] routes[k]).path
                    != path by {
                    if k > 0 {
                        assert(rest[k - 1] == routes[k]);
                    }
                }
            },
        }
    }
}

/// A request never resolves to a binding from another version: what a
/// well-formed state resolves to is a method that its own classes
/// declare, and the request's path is that method's path.
pub proof fn law_resolved_binding_is_declared(state: ServerState, verb: Verb, path: Seq<char>)
    requires
        state.wf(),
    ensures
        match resolution(state.routes(), verb, path) {
            ResolutionView::Invoke { class, method } => declares(state.classes(), class, method)
                && path == route_path(class, method),
            _ => true,
        },
{
    let routes = state.routes();
    lemma_found_route_is_member(routes, path);
    match resolution(routes, verb, path) {
        ResolutionView::Invoke { class, method } => {
            let r = find_route(routes, path)->Some_0;
            let k = choose|k: int| 0 <= k < routes.len() && #[trigger] routes[k] == r;
            lemma_routes_sound(state.classes(), k);
        },
        _ => {},
    }
}

/// Every method that a well-formed state declares is served: a request
/// at the method's path resolves to an invocation.
pub proof fn law_declared_method_is_served(state: ServerState, verb: Verb, i: int, j: int)
    requires
        state.wf(),
        0 <= i < state.classes().len(),
        0 <= j < state.classes()[i].methods.len(),
        !(verb == Verb::Get && route_path(state.classes()[i].name, state.classes()[i].methods[j])
            == status_path()),
    ensures
        resolution(
            state.routes(),
            verb,
            route_path(state.classes()[i].name, state.classes()[i].methods[j]),
        ) is Invoke,
{
    let path = route_path(state.classes()[i].name, state.classes()[i].methods[j]);
    lemma_routes_complete(state.classes(), i, j);
    lemma_found_route_is_member(state.routes(), path);
}

/// The views of a route list with one more route are the views of the
/// list with the view of that route.
proof fn lemma_route_pushed(routes: Seq<Route>, route: Route)
    ensures
        route_views(routes.push(route)) == route_views(routes).push(route@),
{
    assert(route_views(routes.push(route)) =~= route_views(routes).push(route@));
}

/// Builds the path at which `method` of `class` is served.
pub fn route_path_for(class: &str, method: &str) -> (path: String)
    ensures
        path@ == route_path(class@, method@),
{
    proof {
        reveal_strlit("/");
    }
    let mut path = String::from_str("/");
    path.append(class);
    path.append("/");
    path.append(method);
    assert(path@ =~= route_path(class@, method@));
    path
}

/// A script that compiled: its text and the classes that it exports.
#[derive(Debug, PartialEq, Eq)]
pub struct Compiled {
    pub script: String,
    pub classes: Vec<ClassDef>,
}

/// One version of the service: the text of a script, its classes and the
/// route table derived from them.
pub struct ServerState {
    script: String,
    classes: Vec<ClassDef>,
    routes: Vec<Route>,
}

impl ServerState {
    /// The script text of this version.
    pub closed spec fn source(&self) -> Seq<char> {
        self.script@
    }

    /// The classes of this version.
    pub closed spec fn classes(&self) -> Seq<ClassView> {
        class_views(self.classes@)
    }

    /// The route table of this version.
    pub closed spec fn routes(&self) -> Seq<RouteView> {
        route_views(self.routes@)
    }

    /// The state's invariant: the route table is the one derived from the
    /// state's own classes.
    #[verifier::type_invariant]
    pub open spec fn wf(&self) -> bool {
        self.routes() == routes_of(self.classes())
    }

    /// Builds the state for a compiled script, deriving the route table.
    pub fn build(compiled: Compiled) -> (state: ServerState)
        ensures
            state.wf(),
            state.source() == compiled.script@,
            state.classes() == class_views(compiled.classes@),
    {
        let Compiled { script, classes } = compiled;
        let mut routes: Vec<Route> = Vec::new();
        let ghost cv = class_views(classes@);
        let n: usize = classes.len();
        let mut i: usize = 0;
        assert(route_views(routes@) =~= routes_of(cv.subrange(0, 0)));
        while i < n
            invariant
                n == classes@.len(),
                i <= n,
                cv == class_views(classes@),
                route_views(routes@) == routes_of(cv.subrange(0, i as int)),
            decreases n - i,
        {
            let class = &classes[i];
            let m: usize = class.methods.len();
            let mut j: usize = 0;
            let ghost base = route_views(routes@);
            assert(route_views(routes@) =~= base + class_routes(class@).subrange(0, 0));
            while j < m
                invariant
                    m == class.methods@.len(),
                    j <= m,
                    route_views(routes@) == base + class_routes(class@).subrange(0, j as int),
                decreases m - j,
            {
                let method = class.methods[j].clone();
                let path = route_path_for(class.name.as_str(), method.as_str());
                let route = Route { path, class: class.name.clone(), method };
                proof {
                    lemma_route_pushed(routes@, route);
                    assert(base + class_routes(class@).subrange(0, j as int + 1) =~= (base
                        + class_routes(class@).subrange(0, j as int)).push(route@));
                }
                routes.push(route);
                j += 1;
            }
            proof {
                let upto = cv.subrange(0, i as int + 1);
                assert(upto.drop_last() =~= cv.subrange(0, i as int));
                assert(upto.last() == class@);
                assert(class_routes(class@).subrange(0, m as int) =~= class_routes(class@));
            }
            i += 1;
        }
        assert(cv.subrange(0, n as int) =~= cv);
        ServerState { script, classes, routes }
    }

    /// A copy of the script text of this version.
    pub fn script(&self) -> (text: String)
        ensures
            text@ == self.source(),
    {
        self.script.clone()
    }

    /// The number of routes.
    pub fn route_count(&self) -> (n: usize)
        ensures
            n == self.routes().len(),
    {
        self.routes.len()
    }

    /// The path of route `i`.
    pub fn route_path_at(&self, i: usize) -> (path: String)
        requires
            i < self.routes().len(),
        ensures
            path@ == self.routes()[i as int].path,
    {
        self.routes[i].path.clone()
    }

    /// Resolves a request against this state and copies out the binding.
    pub fn resolve(&self, verb: Verb, path: &str) -> (r: Resolution)
        ensures
            r@ == resolution(self.routes(), verb, path@),
    {
        let wanted = String::from_str(path);
        if verb == Verb::Get && wanted == String::from_str("/cloudstate/status") {
            return Resolution::Status;
        }
        let ghost rv = self.routes();
        let n: usize = self.routes.len();
        let mut i: usize = 0;
        assert(rv.subrange(0, n as int) =~= rv);
        while i < n
            invariant
                n == self.routes@.len(),
                i <= n,
                rv == route_views(self.routes@),
                wanted@ == path@,
                !(verb == Verb::Get && path@ == status_path()),
                find_route(rv, path@) == find_route(rv.subrange(i as int, n as int), path@),
            decreases n - i,
        {
            let route = &self.routes[i];
            assert(rv.subrange(i as int, n as int)[0] == route@);
            if route.path == wanted {
                assert(route@.path == path@);
                assert(find_route(rv.subrange(i as int, n as int), path@) == Some(route@));
                return Resolution::Invoke {
                    class: route.class.clone(),
                    method: route.method.clone(),
                };
            }
            assert(rv.subrange(i as int, n as int).drop_first() =~= rv.subrange(
                i as int + 1,
                n as int,
            ));
            i += 1;
        }
        Resolution::NotFound
    }
}

/// Why a reload was rejected.
#[derive(Debug, PartialEq, Eq)]
pub struct ReloadError {
    /// What the compiler said of the new script.
    pub message: String,
}

/// The slot that holds the current server state. Its only write is the
/// replacement of the whole state.
pub struct ServerSlot {
    current: ServerState,
}

impl ServerSlot {
    /// The state that is current.
    pub closed spec fn state(&self) -> ServerState {
        self.current
    }

    /// The slot's invariant: the state in it is well formed.
    pub open spec fn wf(&self) -> bool {
        self.state().wf()
    }

    /// A slot that serves `first` as its first version.
    pub fn new(first: Compiled) -> (slot: ServerSlot)
        ensures
            slot.wf(),
            slot.state().source() == first.script@,
            slot.state().classes() == class_views(first.classes@),
    {
        ServerSlot { current: ServerState::build(first) }
    }

    /// Ends a rebuild. Where the script compiled, the state built from its
    /// classes becomes current, as a whole. Where it did not, the reload
    /// is rejected: the slot keeps the state it had, and the compiler's
    /// message comes back as the error.
    pub fn reload(&mut self, compiled: Result<Compiled, String>) -> (r: Result<
        (),
        ReloadError,
    >)
        ensures
            final(self).wf(),
            match compiled {
                Ok(next) => r is Ok && final(self).state().source() == next.script@
                    && final(self).state().classes() == class_views(next.classes@),
                Err(message) => r is Err && r->Err_0.message == message && final(self).state()
                    == old(self).state(),
            },
    {
        match compiled {
            Ok(next) => {
                self.current = ServerState::build(next);
                Ok(())
            },
            Err(message) => {
                proof {
                    use_type_invariant(&self.current);
                }
                Err(ReloadError { message })
            },
        }
    }

    /// A copy of the script text of the current state.
    pub fn script(&self) -> (text: String)
        ensures
            text@ == self.state().source(),
    {
        self.current.script()
    }

    /// Resolves a request against the current state and copies out the
    /// binding, so that nothing of the slot is held while the script runs.
    pub fn resolve(&self, verb: Verb, path: &str) -> (r: Resolution)
        ensures
            r@ == resolution(self.state().routes(), verb, path@),
    {
        self.current.resolve(verb, path)
    }
}

} // verus!
