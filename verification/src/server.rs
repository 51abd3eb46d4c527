//! A model of what an installation does to the display server, and what
//! follows from it for runs that come one after another.

use crate::install::{
    cleanup, clearing, publishing, script, single_owner, Request, Screen, Triple,
};
use vstd::prelude::*;

verus! {

/// The part of the display server's state that wallpaper setters share.
pub struct Server {
    /// What the properties of the root window hold, by atom.
    pub properties: Map<u32, u32>,
    /// The pixmaps that installations left on the server.
    pub live: Set<u32>,
    /// The root window's background pixmap.
    pub background: Option<u32>,
}

impl Server {
    /// What reading the property `atom` gives.
    pub open spec fn reading(self, atom: u32) -> Option<u32> {
        if self.properties.dom().contains(atom) {
            Some(self.properties[atom])
        } else {
            None
        }
    }

    /// What reading the three properties gives.
    pub open spec fn readings(self, atoms: Triple<u32>) -> Triple<Option<u32>> {
        Triple {
            first: self.reading(atoms.first),
            second: self.reading(atoms.second),
            third: self.reading(atoms.third),
        }
    }

    /// Whether at most one pixmap is left on the server.
    pub open spec fn at_most_one(self) -> bool {
        forall|a: u32, b: u32| self.live.contains(a) && self.live.contains(b) ==> a == b
    }

    /// The server after it has carried out `request`.  Killing the client
    /// of a pixmap destroys the pixmap; killing all temporary resources
    /// destroys every pixmap that an earlier installation left, since each
    /// asks for its resources to be retained temporarily; creating a pixmap
    /// adds it.
    pub open spec fn after(self, request: Request) -> Server {
        match request {
            Request::KillClient { resource } => Server {
                live: self.live.remove(resource),
                ..self
            },
            Request::KillAllTemporary => Server { live: Set::empty(), ..self },
            Request::CreatePixmap { pixmap, .. } => Server {
                live: self.live.insert(pixmap),
                ..self
            },
            Request::SetBackground { pixmap } => Server { background: Some(pixmap), ..self },
            Request::ChangeProperty { atom, pixmap, .. } => Server {
                properties: self.properties.insert(atom, pixmap),
                ..self
            },
            _ => self,
        }
    }

    /// The server after it has carried out `requests`, first to last.
    pub open spec fn after_all(self, requests: Seq<Request>) -> Server
        decreases requests.len(),
    {
        if requests.len() == 0 {
            self
        } else {
            self.after_all(requests.drop_last()).after(requests.last())
        }
    }

    /// Whether at most one pixmap is left on the server before `requests`,
    /// after them, and between any two of them.
    pub open spec fn never_two(self, requests: Seq<Request>) -> bool
        decreases requests.len(),
    {
        if requests.len() == 0 {
            self.at_most_one()
        } else {
            self.never_two(requests.drop_last()) && self.after_all(requests).at_most_one()
        }
    }

    /// How many of `requests` destroy a pixmap that was left on the server.
    pub open spec fn destructions(self, requests: Seq<Request>) -> nat
        decreases requests.len(),
    {
        if requests.len() == 0 {
            0
        } else {
            let before = self.after_all(requests.drop_last());
            let rest = self.destructions(requests.drop_last());
            if before.live.subset_of(before.after(requests.last()).live) {
                rest
            } else {
                rest + 1
            }
        }
    }

    /// The server after an installation that read the properties from it.
    pub open spec fn installed(
        self,
        screen: Screen,
        pixmap: u32,
        context: u32,
        atoms: Triple<u32>,
    ) -> Server {
        self.after_all(
            script(screen, pixmap, context, atoms, single_owner(self.readings(atoms))),
        )
    }
}

/// Carrying out one more request is carrying out the others first.
proof fn lemma_one_more(server: Server, requests: Seq<Request>, request: Request)
    ensures
        server.after_all(requests.push(request)) == server.after_all(requests).after(request),
        server.never_two(requests.push(request)) == (server.never_two(requests)
            && server.after_all(requests).after(request).at_most_one()),
        server.destructions(requests.push(request)) == server.destructions(requests) + (
        if server.after_all(requests).live.subset_of(
            server.after_all(requests).after(request).live,
        ) {
            0nat
        } else {
            1nat
        }),
{
    assert(requests.push(request).drop_last() =~= requests);
}

/// What the requests that follow the clean-up do, whatever the clean-up
/// left: if it left a pixmap, killing all temporary resources destroys it;
/// from then on only the new pixmap is on the server, which becomes the
/// background and is written into all three properties.
proof fn lemma_after_cleanup(
    server: Server,
    screen: Screen,
    pixmap: u32,
    context: u32,
    atoms: Triple<u32>,
    owner: Option<u32>,
)
    ensures
        ({
            let requests = script(screen, pixmap, context, atoms, owner);
            let cleaned = server.after_all(cleanup(owner));
            let done = server.after_all(requests);
            &&& done.live == set![pixmap]
            &&& done.background == Some(pixmap)
            &&& done.readings(atoms) == (Triple {
                first: Some(pixmap),
                second: Some(pixmap),
                third: Some(pixmap),
            })
            &&& server.never_two(requests) == server.never_two(cleanup(owner))
            &&& server.destructions(requests) == server.destructions(cleanup(owner)) + (
            if cleaned.live.subset_of(Set::<u32>::empty()) {
                0nat
            } else {
                1nat
            })
        }),
{
    let image = Request::CreateImage {
        width: screen.width,
        height: screen.height,
        depth: screen.depth,
    };
    let create = Request::CreatePixmap {
        pixmap,
        width: screen.width,
        height: screen.height,
        depth: screen.depth,
    };
    let put = Request::PutImage { pixmap, context, width: screen.width, height: screen.height };
    let r0 = cleanup(owner);
    let r1 = r0.push(Request::KillAllTemporary);
    let r2 = r1.push(Request::RetainTemporary);
    let r3 = r2.push(image);
    let r4 = r3.push(create);
    let r5 = r4.push(Request::CreateContext { context });
    let r6 = r5.push(put);
    let r7 = r6.push(Request::SetBackground { pixmap });
    let r8 = r7.push(clearing(screen));
    let r9 = r8.push(publishing(atoms.first, pixmap));
    let r10 = r9.push(publishing(atoms.second, pixmap));
    let r11 = r10.push(publishing(atoms.third, pixmap));
    let r12 = r11.push(Request::Flush);
    lemma_one_more(server, r0, Request::KillAllTemporary);
    lemma_one_more(server, r1, Request::RetainTemporary);
    lemma_one_more(server, r2, image);
    lemma_one_more(server, r3, create);
    lemma_one_more(server, r4, Request::CreateContext { context });
    lemma_one_more(server, r5, put);
    lemma_one_more(server, r6, Request::SetBackground { pixmap });
    lemma_one_more(server, r7, clearing(screen));
    lemma_one_more(server, r8, publishing(atoms.first, pixmap));
    lemma_one_more(server, r9, publishing(atoms.second, pixmap));
    lemma_one_more(server, r10, publishing(atoms.third, pixmap));
    lemma_one_more(server, r11, Request::Flush);
    assert(server.after_all(r1).live =~= Set::<u32>::empty());
    assert(server.after_all(r4).live =~= set![pixmap]);
    assert(r12 == script(screen, pixmap, context, atoms, owner));
}

/// An installation leaves exactly its own pixmap on the server, as the
/// background and in all three properties, whatever was there before.
pub proof fn lemma_install_publishes(
    server: Server,
    screen: Screen,
    pixmap: u32,
    context: u32,
    atoms: Triple<u32>,
)
    ensures
        server.installed(screen, pixmap, context, atoms).live == set![pixmap],
        server.installed(screen, pixmap, context, atoms).background == Some(pixmap),
        server.installed(screen, pixmap, context, atoms).readings(atoms) == (Triple {
            first: Some(pixmap),
            second: Some(pixmap),
            third: Some(pixmap),
        }),
        single_owner(server.installed(screen, pixmap, context, atoms).readings(atoms)) == Some(
            pixmap,
        ),
{
    let owner = single_owner(server.readings(atoms));
    lemma_after_cleanup(server, screen, pixmap, context, atoms, owner);
}

impl Server {
    /// Whether the server is as installations leave it: no pixmap is left
    /// on it but the one that all three properties name, if they name one.
    pub open spec fn tidy(self, atoms: Triple<u32>) -> bool {
        self.live == match single_owner(self.readings(atoms)) {
            Some(pixmap) => set![pixmap],
            None => Set::<u32>::empty(),
        }
    }
}

/// On a server as installations leave it, an installation destroys a pixmap
/// exactly once if an earlier one left its pixmap, and never otherwise; at
/// no moment are two pixmaps left on the server; and the server is again as
/// installations leave it.
pub proof fn lemma_run_on_tidy_server(
    server: Server,
    screen: Screen,
    pixmap: u32,
    context: u32,
    atoms: Triple<u32>,
)
    requires
        server.tidy(atoms),
    ensures
        ({
            let owner = single_owner(server.readings(atoms));
            let requests = script(screen, pixmap, context, atoms, owner);
            &&& server.destructions(requests) == if owner is Some {
                1nat
            } else {
                0nat
            }
            &&& server.never_two(requests)
            &&& server.installed(screen, pixmap, context, atoms).tidy(atoms)
        }),
{
    let owner = single_owner(server.readings(atoms));
    let none = Seq::<Request>::empty();
    assert(server.after_all(none) == server);
    match owner {
        Some(resource) => {
            assert(cleanup(owner) == none.push(Request::KillClient { resource }));
            lemma_one_more(server, none, Request::KillClient { resource });
            assert(server.live.contains(resource));
            assert(server.after_all(cleanup(owner)).live =~= Set::<u32>::empty());
        },
        None => {
            assert(cleanup(owner) == none);
        },
    }
    lemma_after_cleanup(server, screen, pixmap, context, atoms, owner);
}

/// Running the installation twice in a row, on whatever server: the second
/// run destroys a pixmap exactly once, and that is the pixmap of the first
/// run; at no moment of the second run are two pixmaps left on the server;
/// and afterwards only the pixmap of the second run is left.
pub proof fn lemma_second_run(
    server: Server,
    screen: Screen,
    first_pixmap: u32,
    first_context: u32,
    second_pixmap: u32,
    second_context: u32,
    atoms: Triple<u32>,
)
    ensures
        ({
            let between = server.installed(screen, first_pixmap, first_context, atoms);
            let owner = single_owner(between.readings(atoms));
            let requests = script(screen, second_pixmap, second_context, atoms, owner);
            &&& owner == Some(first_pixmap)
            &&& requests[0] == Request::KillClient { resource: first_pixmap }
            &&& between.destructions(requests) == 1
            &&& between.never_two(requests)
            &&& between.after_all(requests).live == set![second_pixmap]
        }),
{
    let between = server.installed(screen, first_pixmap, first_context, atoms);
    lemma_install_publishes(server, screen, first_pixmap, first_context, atoms);
    lemma_run_on_tidy_server(between, screen, second_pixmap, second_context, atoms);
    lemma_install_publishes(between, screen, second_pixmap, second_context, atoms);
}

} // verus!
