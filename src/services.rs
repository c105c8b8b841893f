use vstd::prelude::*;

verus! {

/// How long a service instance lives.
#[derive(Clone, Copy, Debug, PartialEq, Eq, Structural)]
pub enum ServiceLifetime {
    /// One instance for the whole process.
    Singleton,
    /// One instance for each scope.
    Scoped,
}

/// A platform service that the process sets up.
#[derive(Debug)]
pub enum Service {
    /// The HTTP client of the platform, authenticated with `token`.
    HttpClient { token: String },
    /// The in-memory cache of platform state.
    InMemoryCache,
}

/// One service together with its lifetime.
#[derive(Debug)]
pub struct ServiceRegistration {
    pub service: Service,
    pub lifetime: ServiceLifetime,
}

/// The services that a process will set up, in the order they were added.
#[derive(Debug)]
pub struct ServicePlan {
    registrations: Vec<ServiceRegistration>,
}

impl View for ServicePlan {
    type V = Seq<ServiceRegistration>;

    closed spec fn view(&self) -> Self::V {
        self.registrations@
    }
}

impl ServicePlan {
    /// A plan with no services.
    pub fn new() -> (r: Self)
        ensures
            r@ == Seq::<ServiceRegistration>::empty(),
    {
        ServicePlan { registrations: Vec::new() }
    }

    /// The planned services, in the order they were added.
    pub fn registrations(&self) -> (r: &Vec<ServiceRegistration>)
        ensures
            r@ == self@,
    {
        &self.registrations
    }
}

/// Adds the platform's services to a plan.
pub trait AddTwilightServices: Sized {
    spec fn planned(&self) -> Seq<ServiceRegistration>;

    /// Adds the HTTP client, authenticated with `token`, as a singleton.
    fn add_http_client(self, token: String) -> (r: Self)
        ensures
            r.planned() == self.planned().push(
                ServiceRegistration {
                    service: Service::HttpClient { token },
                    lifetime: ServiceLifetime::Singleton,
                },
            ),
    ;

    /// Adds the in-memory cache as a singleton.
    fn add_in_memory_cache(self) -> (r: Self)
        ensures
            r.planned() == self.planned().push(
                ServiceRegistration {
                    service: Service::InMemoryCache,
                    lifetime: ServiceLifetime::Singleton,
                },
            ),
    ;
}

impl AddTwilightServices for ServicePlan {
    open spec fn planned(&self) -> Seq<ServiceRegistration> {
        self@
    }

    fn add_http_client(self, token: String) -> (r: Self) {
        let mut registrations = self.registrations;
        registrations.push(
            ServiceRegistration {
                service: Service::HttpClient { token },
                lifetime: ServiceLifetime::Singleton,
            },
        );
        ServicePlan { registrations }
    }

    fn add_in_memory_cache(self) -> (r: Self) {
        let mut registrations = self.registrations;
        registrations.push(
            ServiceRegistration {
                service: Service::InMemoryCache,
                lifetime: ServiceLifetime::Singleton,
            },
        );
        ServicePlan { registrations }
    }
}

} // verus!
