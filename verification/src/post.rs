//! The domain model: a social-media post and its derived composite id.
//!
//! A post carries the originating service as an open integer code, the way
//! it travels on the wire; the codes the pipeline knows are named by
//! [`Service`].  The composite id `"{service_name}:{source_id}"` is derived
//! on demand and used as the partition key of the durable log.

use vstd::prelude::*;

verus! {

/// Wire code for a post from Mastodon.
pub const SERVICE_MASTODON: i32 = 1;

/// Wire code for a post from X.
pub const SERVICE_X: i32 = 2;

/// The social services the pipeline recognises.  A post's `service` field
/// is an open integer code, so unknown codes stay representable; they fold
/// to `Unspecified` when read.
#[derive(Clone, Copy, PartialEq, Eq, Structural, Debug)]
pub enum Service {
    Unspecified,
    Mastodon,
    X,
}

impl Service {
    /// The integer code this service travels as on the wire.
    pub open spec fn spec_code(self) -> i32 {
        match self {
            Service::Unspecified => 0,
            Service::Mastodon => SERVICE_MASTODON,
            Service::X => SERVICE_X,
        }
    }

    /// Executable form of [`Service::spec_code`].
    pub fn code(self) -> (r: i32)
        ensures
            r == self.spec_code(),
    {
        match self {
            Service::Unspecified => 0,
            Service::Mastodon => SERVICE_MASTODON,
            Service::X => SERVICE_X,
        }
    }

    /// The service a wire code names; codes the pipeline does not know
    /// fold to `Unspecified`.
    pub open spec fn spec_of_code(code: i32) -> Service {
        if code == SERVICE_MASTODON {
            Service::Mastodon
        } else if code == SERVICE_X {
            Service::X
        } else {
            Service::Unspecified
        }
    }

    /// Executable form of [`Service::spec_of_code`].
    pub fn of_code(code: i32) -> (r: Service)
        ensures
            r == Service::spec_of_code(code),
    {
        if code == SERVICE_MASTODON {
            Service::Mastodon
        } else if code == SERVICE_X {
            Service::X
        } else {
            Service::Unspecified
        }
    }
}

/// A point in time as carried by a post: whole seconds since the epoch and
/// a sub-second nanosecond part.
#[derive(Clone, Copy, PartialEq, Eq, Structural, Debug)]
pub struct Timestamp {
    pub seconds: i64,
    pub nanos: i32,
}

/// One social-media post.
///
/// `id` is the identifier the originating service gave the post; the
/// pipeline requires it to be non-empty (see [`PostView::wf`]).
#[derive(Debug, PartialEq, Eq)]
pub struct Post {
    pub id: String,
    pub service: i32,
    pub timestamp: Option<Timestamp>,
    pub content: String,
}

/// The mathematical value of a [`Post`]: its strings as character
/// sequences, everything else as plain values.
#[verifier::ext_equal]
pub struct PostView {
    pub id: Seq<char>,
    pub service: i32,
    pub timestamp: Option<Timestamp>,
    pub content: Seq<char>,
}

impl PostView {
    /// The invariant of a post: the source-assigned id is non-empty, so the
    /// composite id always names a post.
    pub open spec fn wf(self) -> bool {
        self.id.len() > 0
    }
}

impl View for Post {
    type V = PostView;

    open spec fn view(&self) -> PostView {
        PostView {
            id: self.id@,
            service: self.service,
            timestamp: self.timestamp,
            content: self.content@,
        }
    }
}

impl Clone for Post {
    /// A clone carries the same value.
    fn clone(&self) -> (r: Self)
        ensures
            r@ == self@,
    {
        Post {
            id: self.id.clone(),
            service: self.service,
            timestamp: self.timestamp,
            content: self.content.clone(),
        }
    }
}

/// The display name of the service behind a wire code; codes the pipeline
/// does not know read as `"unknown"`.
pub open spec fn service_name(code: i32) -> Seq<char> {
    if code == SERVICE_MASTODON {
        "mastodon"@
    } else if code == SERVICE_X {
        "x"@
    } else {
        "unknown"@
    }
}

/// The composite id of a post: `"{service_name}:{source_id}"`.  Used as the
/// partition key of the durable log, so all messages about one post land in
/// one partition.
pub open spec fn composite_id(p: PostView) -> Seq<char> {
    service_name(p.service) + ":"@ + p.id
}

/// The views of a run of posts.
pub open spec fn posts_view(ps: Seq<Post>) -> Seq<PostView> {
    ps.map_values(|p: Post| p@)
}

/// An ordered batch of posts: insertion order is arrival order, nothing
/// is deduplicated.  The aggregator grows one, moves it out whole at
/// flush time, and starts a fresh empty one.
#[derive(Debug, PartialEq, Eq)]
pub struct PostBatch {
    pub posts: Vec<Post>,
}

impl View for PostBatch {
    type V = Seq<PostView>;

    open spec fn view(&self) -> Seq<PostView> {
        posts_view(self.posts@)
    }
}

/// A value with a derived identifier, used to key messages in the durable
/// log.
pub trait PostId {
    /// What the identifier is, as a character sequence.
    spec fn spec_id(&self) -> Seq<char>;

    /// Compute the identifier.
    fn id(&self) -> (r: String)
        ensures
            r@ == self.spec_id(),
    ;
}

impl PostId for Post {
    open spec fn spec_id(&self) -> Seq<char> {
        composite_id(self@)
    }

    fn id(&self) -> (r: String) {
        let name: &str = if self.service == SERVICE_MASTODON {
            "mastodon"
        } else if self.service == SERVICE_X {
            "x"
        } else {
            "unknown"
        };
        let mut s = String::new();
        s.append(name);
        s.append(":");
        s.append(self.id.as_str());
        proof {
            assert(s@ =~= composite_id(self@));
        }
        s
    }
}

} // verus!
