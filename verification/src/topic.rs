//! Topic grammar: pure splitting of slash-delimited topic strings and their
//! classification into the closed set of recognized publish and subscribe
//! shapes. Anything outside that set is an explicit reject.

use vstd::prelude::*;

verus! {

/// Splitting `s` on '/', with `cur` the segment read so far.
pub open spec fn split_acc(s: Seq<char>, cur: Seq<char>) -> Seq<Seq<char>>
    decreases s.len(),
{
    if s.len() == 0 {
        seq![cur]
    } else if s[0] == '/' {
        seq![cur] + split_acc(s.drop_first(), Seq::<char>::empty())
    } else {
        split_acc(s.drop_first(), cur.push(s[0]))
    }
}

/// The segments of `s`, split on '/'. An empty string has one empty segment;
/// adjacent separators yield empty segments, which the grammar treats as
/// meaningful.
pub open spec fn split_path(s: Seq<char>) -> Seq<Seq<char>> {
    split_acc(s, Seq::<char>::empty())
}

/// Character-wise string equality, proved against the string views.
pub fn str_eq(a: &str, b: &str) -> (r: bool)
    ensures
        r == (a@ == b@),
{
    let an = a.unicode_len();
    let bn = b.unicode_len();
    if an != bn {
        return false;
    }
    let mut i: usize = 0;
    while i < an
        invariant
            0 <= i <= an,
            an == a@.len(),
            an == b@.len(),
            forall|j: int| 0 <= j < i ==> a@[j] == b@[j],
        decreases an - i,
    {
        if a.get_char(i) != b.get_char(i) {
            return false;
        }
        i = i + 1;
    }
    proof {
        assert(a@ =~= b@);
    }
    true
}

/// The segments of `s`, as borrowed slices, in order.
pub fn split_topic<'a>(s: &'a str) -> (segs: Vec<&'a str>)
    ensures
        segs@.map_values(|t: &str| t@) == split_path(s@),
{
    let n = s.unicode_len();
    let mut segs: Vec<&str> = Vec::new();
    let mut start: usize = 0;
    let mut i: usize = 0;
    proof {
        assert(s@.subrange(0, n as int) =~= s@);
        assert(s@.subrange(0, 0) =~= Seq::<char>::empty());
        assert(segs@.map_values(|t: &str| t@) + split_acc(s@, Seq::<char>::empty()) =~= split_acc(
            s@,
            Seq::<char>::empty(),
        ));
    }
    while i < n
        invariant
            0 <= start <= i <= n,
            n == s@.len(),
            split_path(s@) == segs@.map_values(|t: &str| t@) + split_acc(
                s@.subrange(i as int, n as int),
                s@.subrange(start as int, i as int),
            ),
        decreases n - i,
    {
        let ghost rest = s@.subrange(i as int, n as int);
        let ghost cur = s@.subrange(start as int, i as int);
        if s.get_char(i) == '/' {
            let seg = s.substring_char(start, i);
            segs.push(seg);
            proof {
                assert(rest.drop_first() =~= s@.subrange(i + 1, n as int));
                assert(s@.subrange(i + 1, i + 1) =~= Seq::<char>::empty());
                assert((segs@.map_values(|t: &str| t@)) =~= (segs@.drop_last().map_values(
                    |t: &str| t@,
                )).push(cur));
                assert(segs@.drop_last().map_values(|t: &str| t@) + (seq![cur] + split_acc(
                    rest.drop_first(),
                    Seq::<char>::empty(),
                )) =~= segs@.map_values(|t: &str| t@) + split_acc(
                    rest.drop_first(),
                    Seq::<char>::empty(),
                ));
            }
            start = i + 1;
        } else {
            proof {
                assert(rest.drop_first() =~= s@.subrange(i + 1, n as int));
                assert(cur.push(s@[i as int]) =~= s@.subrange(start as int, i + 1));
            }
        }
        i = i + 1;
    }
    let last = s.substring_char(start, n);
    segs.push(last);
    proof {
        assert(s@.subrange(n as int, n as int) =~= Seq::<char>::empty());
        assert((segs@.map_values(|t: &str| t@)) =~= (segs@.drop_last().map_values(|t: &str| t@))
            + seq![s@.subrange(start as int, n as int)]);
    }
    segs
}

/// Shape of a publish topic.
pub enum PublishShape {
    /// One segment: publish as the authenticated device itself.
    Own { channel: Seq<char> },
    /// Two segments: publish as a named proxied device.
    Proxied { channel: Seq<char>, as_device: Seq<char> },
    /// Any other segment count.
    Invalid,
}

/// Classification of a publish topic: one segment publishes as self, two as a
/// proxied device, everything else is invalid.
pub open spec fn classify_publish(topic: Seq<char>) -> PublishShape {
    let segs = split_path(topic);
    if segs.len() == 1 {
        PublishShape::Own { channel: segs[0] }
    } else if segs.len() == 2 {
        PublishShape::Proxied { channel: segs[0], as_device: segs[1] }
    } else {
        PublishShape::Invalid
    }
}

/// Shape of a subscribe topic filter.
pub enum SubscribeShape {
    /// `command/inbox/#` or `command/inbox/+/#`: commands for any device
    /// under the application/device pair.
    AllDevices,
    /// `command/inbox//#` (the literal empty segment): commands addressed to
    /// the authenticated device itself.
    SelfOnly,
    /// `command/inbox/<device>/#`: commands proxied for one exact device.
    ProxiedDevice { device: Seq<char> },
    /// Any other shape.
    Invalid,
}

/// Classification of a subscribe topic filter into the four legal inbox
/// shapes; anything else is invalid.
pub open spec fn classify_subscribe(topic: Seq<char>) -> SubscribeShape {
    let segs = split_path(topic);
    if segs.len() == 3 && segs[0] == "command"@ && segs[1] == "inbox"@ && segs[2] == "#"@ {
        SubscribeShape::AllDevices
    } else if segs.len() == 4 && segs[0] == "command"@ && segs[1] == "inbox"@ && segs[3] == "#"@ {
        if segs[2] == "+"@ {
            SubscribeShape::AllDevices
        } else if segs[2] == ""@ {
            SubscribeShape::SelfOnly
        } else {
            SubscribeShape::ProxiedDevice { device: segs[2] }
        }
    } else {
        SubscribeShape::Invalid
    }
}

/// Executable classification result for a publish topic.
pub enum PublishClass {
    Own { channel: String },
    Proxied { channel: String, as_device: String },
    Invalid,
}

impl View for PublishClass {
    type V = PublishShape;

    open spec fn view(&self) -> PublishShape {
        match self {
            PublishClass::Own { channel } => PublishShape::Own { channel: channel@ },
            PublishClass::Proxied { channel, as_device } => PublishShape::Proxied {
                channel: channel@,
                as_device: as_device@,
            },
            PublishClass::Invalid => PublishShape::Invalid,
        }
    }
}

/// Classify a publish topic; the result mirrors `classify_publish` exactly,
/// so the classification is a pure function of the topic text.
pub fn classify_publish_topic(topic: &str) -> (r: PublishClass)
    ensures
        r@ == classify_publish(topic@),
{
    let segs = split_topic(topic);
    proof {
        assert(segs@.map_values(|t: &str| t@).len() == segs@.len());
    }
    if segs.len() == 1 {
        PublishClass::Own { channel: segs[0].to_owned() }
    } else if segs.len() == 2 {
        PublishClass::Proxied { channel: segs[0].to_owned(), as_device: segs[1].to_owned() }
    } else {
        PublishClass::Invalid
    }
}

/// Executable classification result for a subscribe topic filter.
pub enum SubscribeClass {
    AllDevices,
    SelfOnly,
    ProxiedDevice { device: String },
    Invalid,
}

impl View for SubscribeClass {
    type V = SubscribeShape;

    open spec fn view(&self) -> SubscribeShape {
        match self {
            SubscribeClass::AllDevices => SubscribeShape::AllDevices,
            SubscribeClass::SelfOnly => SubscribeShape::SelfOnly,
            SubscribeClass::ProxiedDevice { device } => SubscribeShape::ProxiedDevice {
                device: device@,
            },
            SubscribeClass::Invalid => SubscribeShape::Invalid,
        }
    }
}

/// Classify a subscribe topic filter; the result mirrors `classify_subscribe`
/// exactly, so the classification is a pure function of the topic text.
pub fn classify_subscribe_topic(topic: &str) -> (r: SubscribeClass)
    ensures
        r@ == classify_subscribe(topic@),
{
    let segs = split_topic(topic);
    proof {
        assert(segs@.map_values(|t: &str| t@).len() == segs@.len());
    }
    if segs.len() == 3 {
        if str_eq(segs[0], "command") && str_eq(segs[1], "inbox") && str_eq(segs[2], "#") {
            SubscribeClass::AllDevices
        } else {
            SubscribeClass::Invalid
        }
    } else if segs.len() == 4 {
        if str_eq(segs[0], "command") && str_eq(segs[1], "inbox") && str_eq(segs[3], "#") {
            if str_eq(segs[2], "+") {
                SubscribeClass::AllDevices
            } else if str_eq(segs[2], "") {
                SubscribeClass::SelfOnly
            } else {
                SubscribeClass::ProxiedDevice { device: segs[2].to_owned() }
            }
        } else {
            SubscribeClass::Invalid
        }
    } else {
        SubscribeClass::Invalid
    }
}

/// Classification reads nothing but the topic text: equal topics classify
/// equally, for publishes and for subscriptions alike.
pub proof fn lemma_classify_pure(t1: Seq<char>, t2: Seq<char>)
    requires
        t1 == t2,
    ensures
        classify_publish(t1) == classify_publish(t2),
        classify_subscribe(t1) == classify_subscribe(t2),
{
}

} // verus!
