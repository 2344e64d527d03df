use vstd::prelude::*;
use vstd::string::*;

verus! {

/// An HTTP method.
pub enum Method {
    Options,
    Get,
    Post,
    Put,
    Delete,
    Head,
    Trace,
    Connect,
    Patch,
    Extension(String),
}

/// Two methods are the same when they are the same variant and, for extension
/// methods, carry the same name.
pub open spec fn same_method(a: Method, b: Method) -> bool {
    match a {
        Method::Options => b is Options,
        Method::Get => b is Get,
        Method::Post => b is Post,
        Method::Put => b is Put,
        Method::Delete => b is Delete,
        Method::Head => b is Head,
        Method::Trace => b is Trace,
        Method::Connect => b is Connect,
        Method::Patch => b is Patch,
        Method::Extension(x) => match b {
            Method::Extension(y) => x@ == y@,
            _ => false,
        },
    }
}

impl Method {
    pub fn same_as(&self, other: &Method) -> (r: bool)
        ensures
            r == same_method(*self, *other),
    {
        match self {
            Method::Options => match other {
                Method::Options => true,
                _ => false,
            },
            Method::Get => match other {
                Method::Get => true,
                _ => false,
            },
            Method::Post => match other {
                Method::Post => true,
                _ => false,
            },
            Method::Put => match other {
                Method::Put => true,
                _ => false,
            },
            Method::Delete => match other {
                Method::Delete => true,
                _ => false,
            },
            Method::Head => match other {
                Method::Head => true,
                _ => false,
            },
            Method::Trace => match other {
                Method::Trace => true,
                _ => false,
            },
            Method::Connect => match other {
                Method::Connect => true,
                _ => false,
            },
            Method::Patch => match other {
                Method::Patch => true,
                _ => false,
            },
            Method::Extension(x) => match other {
                Method::Extension(y) => *x == *y,
                _ => false,
            },
        }
    }
}

/// The handler that the first fitting entry names: an entry fits when it has
/// no method (a default) or the request's method.
pub open spec fn pick(handlers: Seq<(Option<Method>, usize)>, m: Method) -> Option<usize>
    decreases handlers.len(),
{
    if handlers.len() == 0 {
        None
    } else {
        match handlers[0].0 {
            None => Some(handlers[0].1),
            Some(x) => if same_method(x, m) {
                Some(handlers[0].1)
            } else {
                pick(handlers.drop_first(), m)
            },
        }
    }
}

/// Returned when no entry of a picker fits the request's method.
#[derive(Debug, Clone, Copy, PartialEq, Eq, Structural)]
pub struct NoMethod;

impl NoMethod {
    pub fn message(&self) -> (r: String)
        ensures
            r@ == "No matching method found."@,
    {
        String::from_str("No matching method found.")
    }

    pub fn description(&self) -> (r: String)
        ensures
            r@ == "No method"@,
    {
        String::from_str("No method")
    }
}

/// Chooses a handler, identified by index, by the request's method.
pub struct MethodPicker {
    handlers: Vec<(Option<Method>, usize)>,
}

impl View for MethodPicker {
    type V = Seq<(Option<Method>, usize)>;

    closed spec fn view(&self) -> Seq<(Option<Method>, usize)> {
        self.handlers@
    }
}

impl MethodPicker {
    pub fn new() -> (r: MethodPicker)
        ensures
            r@ == Seq::<(Option<Method>, usize)>::empty(),
    {
        MethodPicker { handlers: Vec::new() }
    }

    /// Adds `handler` for `method`.
    pub fn add(&mut self, method: Method, handler: usize)
        ensures
            final(self)@ == old(self)@.push((Some(method), handler)),
    {
        self.handlers.push((Some(method), handler));
    }

    /// Adds `handler` for GET.
    pub fn get(&mut self, handler: usize)
        ensures
            final(self)@ == old(self)@.push((Some(Method::Get), handler)),
    {
        self.add(Method::Get, handler);
    }

    /// Adds `handler` for POST.
    pub fn post(&mut self, handler: usize)
        ensures
            final(self)@ == old(self)@.push((Some(Method::Post), handler)),
    {
        self.add(Method::Post, handler);
    }

    /// Adds `handler` for PUT.
    pub fn put(&mut self, handler: usize)
        ensures
            final(self)@ == old(self)@.push((Some(Method::Put), handler)),
    {
        self.add(Method::Put, handler);
    }

    /// Adds `handler` for DELETE.
    pub fn delete(&mut self, handler: usize)
        ensures
            final(self)@ == old(self)@.push((Some(Method::Delete), handler)),
    {
        self.add(Method::Delete, handler);
    }

    /// Adds `handler` for HEAD.
    pub fn head(&mut self, handler: usize)
        ensures
            final(self)@ == old(self)@.push((Some(Method::Head), handler)),
    {
        self.add(Method::Head, handler);
    }

    /// Adds `handler` for PATCH.
    pub fn patch(&mut self, handler: usize)
        ensures
            final(self)@ == old(self)@.push((Some(Method::Patch), handler)),
    {
        self.add(Method::Patch, handler);
    }

    /// Adds `handler` for OPTIONS.
    pub fn options(&mut self, handler: usize)
        ensures
            final(self)@ == old(self)@.push((Some(Method::Options), handler)),
    {
        self.add(Method::Options, handler);
    }

    /// Adds `handler` for every method; entries added after it are never reached.
    pub fn default(&mut self, handler: usize)
        ensures
            final(self)@ == old(self)@.push((None, handler)),
    {
        self.handlers.push((None, handler));
    }

    /// The handler of the first entry that fits `method`, or `NoMethod`.
    pub fn handle(&self, method: &Method) -> (r: Result<usize, NoMethod>)
        ensures
            r == match pick(self@, *method) {
                Some(h) => Ok(h),
                None => Err(NoMethod),
            },
    {
        let mut i: usize = 0;
        assert(self@.skip(0) =~= self@);
        while i < self.handlers.len()
            invariant
                0 <= i <= self@.len(),
                pick(self@, *method) == pick(self@.skip(i as int), *method),
            decreases self@.len() - i,
        {
            assert(self@.skip(i as int)[0] == self@[i as int]);
            assert(self@.skip(i as int).drop_first() =~= self@.skip(i + 1));
            match &self.handlers[i].0 {
                None => return Ok(self.handlers[i].1),
                Some(m) => {
                    if m.same_as(method) {
                        return Ok(self.handlers[i].1);
                    }
                },
            }
            i = i + 1;
        }
        Err(NoMethod)
    }
}

} // verus!
