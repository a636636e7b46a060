//! Which page a fault is for, and what goes into it.
//!
//! A VM restored lazily has its memory served page by page: the kernel reports the address that was
//! touched, and the page server answers with the page of the snapshot that lies there, or with
//! zeros where the snapshot has none.

use vstd::prelude::*;

verus! {

/// Why a fault could not be served.
#[derive(Debug, PartialEq, Eq)]
pub enum UffdError {
    /// The kernel refused an operation.
    Uffd(String),
    /// The snapshot could not be read.
    Io(String),
    /// The address lies outside the memory that is served.
    OutOfRange {
        /// The address.
        addr: usize,
        /// Where the memory begins.
        base: usize,
        /// One past its end.
        end: usize,
    },
}

/// The memory that is served: `len` bytes from `base`, in pages of `page` bytes.
#[derive(Clone, Copy, Debug, PartialEq, Eq, Structural)]
pub struct GuestRegion {
    base: usize,
    len: usize,
    page: usize,
}

/// The page that a fault is for.
#[derive(Clone, Copy, Debug, PartialEq, Eq, Structural)]
pub struct FaultedPage {
    /// Where the page begins.
    pub at: usize,
    /// How far into the memory that is.
    pub offset: u64,
}

/// The beginning of the page that holds an address.
pub open spec fn page_start(addr: int, page: int) -> int {
    addr - addr % page
}

impl GuestRegion {
    #[verifier::type_invariant]
    spec fn wf(self) -> bool {
        self.page > 0 && self.base + self.len <= usize::MAX
    }

    /// Where the memory begins.
    pub closed spec fn start(&self) -> int {
        self.base as int
    }

    /// One past its end.
    pub closed spec fn end(&self) -> int {
        self.base + self.len
    }

    /// The size of a page.
    pub closed spec fn page_size(&self) -> int {
        self.page as int
    }

    /// A region of mapped memory.
    pub fn new(base: usize, len: usize, page: usize) -> (region: GuestRegion)
        requires
            page > 0,
            base + len <= usize::MAX,
        ensures
            region.start() == base,
            region.end() == base + len,
            region.page_size() == page,
    {
        GuestRegion { base, len, page }
    }

    /// The page that a fault at `addr` is for. One outside the region is an error, never served.
    pub fn locate(&self, addr: usize) -> (r: Result<FaultedPage, UffdError>)
        ensures
            ({
                let start = page_start(addr as int, self.page_size());
                match r {
                    Ok(page) => {
                        &&& self.start() <= start < self.end()
                        &&& page.at == start
                        &&& page.offset == start - self.start()
                    },
                    Err(e) => {
                        &&& !(self.start() <= start < self.end())
                        &&& e matches UffdError::OutOfRange { addr: a, base, end } && a == addr
                            && base == self.start() && end == self.end()
                    },
                }
            }),
    {
        proof {
            use_type_invariant(self);
            vstd::arithmetic::div_mod::lemma_mod_decreases(addr as nat, self.page as nat);
        }
        let at: usize = addr - addr % self.page;
        let end: usize = self.base + self.len;
        if at < self.base || at >= end {
            return Err(UffdError::OutOfRange { addr, base: self.base, end });
        }
        Ok(FaultedPage { at, offset: (at - self.base) as u64 })
    }

    /// An empty buffer of one page.
    pub fn blank_page(&self) -> (page: Vec<u8>)
        ensures
            page@ == Seq::new(self.page_size() as nat, |i: int| 0u8),
    {
        proof {
            use_type_invariant(self);
        }
        let mut page: Vec<u8> = Vec::new();
        let mut i: usize = 0;
        while i < self.page
            invariant
                i <= self.page,
                page@ == Seq::new(i as nat, |i: int| 0u8),
            decreases self.page - i,
        {
            page.push(0);
            i = i + 1;
            proof {
                assert(page@ =~= Seq::new(i as nat, |i: int| 0u8));
            }
        }
        page
    }
}

/// A page of the region begins at a page boundary, holds the address that was touched, and its
/// offset is a whole number of pages where the region begins at a page boundary.
pub proof fn law_faulted_page_holds_the_address(base: int, addr: int, page: int)
    requires
        page > 0,
        0 <= base,
        base % page == 0,
        base <= page_start(addr, page),
    ensures
        page_start(addr, page) <= addr < page_start(addr, page) + page,
        page_start(addr, page) % page == 0,
        (page_start(addr, page) - base) % page == 0,
{
    vstd::arithmetic::div_mod::lemma_fundamental_div_mod(addr, page);
    vstd::arithmetic::div_mod::lemma_fundamental_div_mod(base, page);
    let q = addr / page;
    let b = base / page;
    assert(page_start(addr, page) == q * page) by (nonlinear_arith)
        requires
            addr == page * q + addr % page,
            page_start(addr, page) == addr - addr % page,
    ;
    vstd::arithmetic::div_mod::lemma_mod_multiples_basic(q, page);
    assert(page_start(addr, page) - base == (q - b) * page) by (nonlinear_arith)
        requires
            page_start(addr, page) == q * page,
            base == page * b + base % page,
            base % page == 0,
    ;
    vstd::arithmetic::div_mod::lemma_mod_multiples_basic(q - b, page);
    vstd::arithmetic::div_mod::lemma_mod_bound(addr, page);
}

// ---------------------------------------------------------------------------
// What goes into a page
// ---------------------------------------------------------------------------

/// The size of a page, from what the system says of it: 4096 where it says nothing of use.
pub fn page_size(reported: i64) -> (size: usize)
    ensures
        size == if 0 < reported <= usize::MAX {
            reported as int
        } else {
            4096
        },
{
    if reported > 0 && reported as u64 <= usize::MAX as u64 {
        reported as usize
    } else {
        4096
    }
}

/// Where the bytes of a page come from.
pub trait PageSource: Sized {
    /// Whether `r` can be what filling a page of `len` bytes from `offset` returns, with `page` in
    /// the buffer afterwards. Of an implementation that does not say, anything can.
    open spec fn fills(
        &self,
        offset: u64,
        len: nat,
        r: Result<bool, String>,
        page: Seq<u8>,
    ) -> bool {
        true
    }

    /// Fills `page`, which is one page, with the bytes from `offset`, or says `false` where there
    /// are none: the page is a hole.
    fn fill(&self, offset: u64, page: &mut Vec<u8>) -> (r: Result<bool, String>)
        ensures
            final(page)@.len() == old(page)@.len(),
            self.fills(offset, old(page)@.len(), r, final(page)@),
    ;
}

/// The page of a snapshot `data` that begins at `offset`: the bytes that there are, then zeros.
/// Past the end there is none.
pub open spec fn page_of(data: Seq<u8>, offset: int, len: nat) -> Option<Seq<u8>> {
    if offset >= data.len() {
        None
    } else {
        Some(
            Seq::new(
                len,
                |i: int|
                    if offset + i < data.len() {
                        data[offset + i]
                    } else {
                        0u8
                    },
            ),
        )
    }
}

/// Completes a page of which the first `n` bytes were read: the rest is zeroed, so that nothing of
/// what the buffer held before reaches the guest. The result says whether anything was read; where
/// not, the page is a hole.
pub fn finish_page(page: &mut Vec<u8>, n: usize) -> (filled: bool)
    requires
        n <= old(page)@.len(),
    ensures
        filled == (n > 0),
        final(page)@.len() == old(page)@.len(),
        n > 0 ==> forall|i: int|
            0 <= i < final(page)@.len() ==> #[trigger] final(page)@[i] == if i < n {
                old(page)@[i]
            } else {
                0u8
            },
        n == 0 ==> final(page)@ == old(page)@,
{
    if n == 0 {
        return false;
    }
    let ghost before = page@;
    let mut i: usize = n;
    while i < page.len()
        invariant
            n <= i <= page@.len() == before.len(),
            forall|j: int|
                0 <= j < page@.len() ==> #[trigger] page@[j] == if n <= j < i {
                    0u8
                } else {
                    before[j]
                },
        decreases page@.len() - i,
    {
        page.set(i, 0);
        i = i + 1;
    }
    true
}

/// A snapshot's memory, held in memory.
#[derive(Debug, PartialEq, Eq)]
pub struct MemoryPageSource {
    data: Vec<u8>,
}

impl MemoryPageSource {
    /// The snapshot's bytes.
    pub closed spec fn bytes(&self) -> Seq<u8> {
        self.data@
    }

    /// A source of the pages of `data`.
    pub fn new(data: Vec<u8>) -> (source: MemoryPageSource)
        ensures
            source.bytes() == data@,
    {
        MemoryPageSource { data }
    }
}

impl PageSource for MemoryPageSource {
    open spec fn fills(&self, offset: u64, len: nat, r: Result<bool, String>, page: Seq<u8>) -> bool {
        match page_of(self.bytes(), offset as int, len) {
            Some(bytes) => len > 0 ==> r == Ok::<bool, String>(true) && page == bytes,
            None => r == Ok::<bool, String>(false),
        }
    }

    fn fill(&self, offset: u64, page: &mut Vec<u8>) -> (r: Result<bool, String>) {
        if offset >= self.data.len() as u64 {
            return Ok(false);
        }
        let from: usize = offset as usize;
        let total: usize = self.data.len();
        let left: usize = total - from;
        let mut n: usize = 0;
        while n < page.len() && n < left
            invariant
                from == offset,
                from + left == total == self.data@.len(),
                n <= page@.len() == old(page)@.len(),
                n <= left,
                forall|j: int| 0 <= j < n ==> #[trigger] page@[j] == self.data@[from + j],
            decreases page@.len() - n,
        {
            page.set(n, self.data[from + n]);
            n = n + 1;
        }
        let filled: bool = finish_page(page, n);
        proof {
            if page@.len() > 0 {
                assert(page@ =~= page_of(self.bytes(), offset as int, page@.len())->0);
            }
        }
        Ok(filled)
    }
}

// ---------------------------------------------------------------------------
// Serving
// ---------------------------------------------------------------------------

/// What the kernel is told to put where a fault happened.
#[derive(Debug, PartialEq, Eq)]
pub enum PageAnswer {
    /// These bytes.
    Copy {
        /// Where the page begins.
        at: usize,
        /// The page.
        page: Vec<u8>,
    },
    /// Zeros.
    Zero {
        /// Where the page begins.
        at: usize,
    },
}

/// Whether `out` is the answer to a fault on the page at `at`, where `r` is what filling it
/// returned and `page` was in the buffer afterwards.
pub open spec fn answers(
    at: int,
    r: Result<bool, String>,
    page: Seq<u8>,
    out: Result<PageAnswer, UffdError>,
) -> bool {
    match r {
        Ok(true) => out matches Ok(PageAnswer::Copy { at: a, page: p }) && a == at && p@ == page,
        Ok(false) => out matches Ok(PageAnswer::Zero { at: a }) && a == at,
        Err(why) => out matches Err(UffdError::Io(e)) && e == why,
    }
}

/// Serves the faults on one region from one source.
pub struct PageFaultServer<S: PageSource> {
    region: GuestRegion,
    source: S,
}

impl<S: PageSource> PageFaultServer<S> {
    /// The memory that is served.
    pub closed spec fn memory(&self) -> GuestRegion {
        self.region
    }

    /// Where its pages come from.
    pub closed spec fn pages(&self) -> S {
        self.source
    }

    /// A server of the pages of `source` for `region`.
    pub fn new(region: GuestRegion, source: S) -> (server: PageFaultServer<S>)
        ensures
            server.memory() == region,
            server.pages() == source,
    {
        PageFaultServer { region, source }
    }

    /// Whether the page that holds `addr` lies in the region.
    pub open spec fn holds(&self, addr: usize) -> bool {
        let region = self.memory();
        region.start() <= page_start(addr as int, region.page_size()) < region.end()
    }

    /// Whether `out` can be what a fault at `addr` is answered.
    pub open spec fn serves(&self, addr: usize, out: Result<PageAnswer, UffdError>) -> bool {
        let region = self.memory();
        let start = page_start(addr as int, region.page_size());
        if self.holds(addr) {
            exists|r: Result<bool, String>, page: Seq<u8>|
                {
                    &&& #[trigger] self.pages().fills(
                        (start - region.start()) as u64,
                        region.page_size() as nat,
                        r,
                        page,
                    )
                    &&& page.len() == region.page_size()
                    &&& answers(start, r, page, out)
                }
        } else {
            out matches Err(UffdError::OutOfRange { addr: a, base, end }) && a == addr && base
                == region.start() && end == region.end()
        }
    }

    /// Serves a fault at `addr`: the page that holds the address gets the source's bytes, or zeros
    /// for a hole. A fault outside the region is an error and asks the source nothing.
    pub fn serve_page(&self, addr: usize) -> (out: Result<PageAnswer, UffdError>)
        ensures
            self.serves(addr, out),
    {
        let place = match self.region.locate(addr) {
            Ok(place) => place,
            Err(e) => {
                return Err(e);
            },
        };
        let mut page = self.region.blank_page();
        let ghost len = page@.len();
        let r = self.source.fill(place.offset, &mut page);
        let ghost (result, bytes) = (r, page@);
        let out = match r {
            Ok(true) => Ok(PageAnswer::Copy { at: place.at, page }),
            Ok(false) => Ok(PageAnswer::Zero { at: place.at }),
            Err(why) => Err(UffdError::Io(why)),
        };
        proof {
            let region = self.memory();
            assert(len == region.page_size());
            assert(place.offset == (place.at - region.start()) as u64);
            assert(self.pages().fills(place.offset, len, result, bytes));
            assert(answers(place.at as int, result, bytes, out));
        }
        out
    }
}

/// Whether `out` can be what a fault at `addr` is answered by one of several servers: the first one
/// in whose region the page lies serves it. Where there is none, the fault is an error.
pub open spec fn served<S: PageSource>(
    servers: Seq<PageFaultServer<S>>,
    addr: usize,
    out: Result<PageAnswer, UffdError>,
) -> bool
    decreases servers.len(),
{
    if servers.len() == 0 {
        out == Err::<PageAnswer, UffdError>(UffdError::OutOfRange { addr, base: 0, end: 0 })
    } else if servers[0].holds(addr) {
        servers[0].serves(addr, out)
    } else {
        served(servers.skip(1), addr, out)
    }
}

/// Serves a fault at `addr` by the first server in whose region the page lies.
pub fn serve_fault<S: PageSource>(servers: &Vec<PageFaultServer<S>>, addr: usize) -> (out: Result<
    PageAnswer,
    UffdError,
>)
    ensures
        served(servers@, addr, out),
{
    let mut i: usize = 0;
    proof {
        assert(servers@.skip(0) =~= servers@);
    }
    while i < servers.len()
        invariant
            i <= servers@.len(),
            forall|out: Result<PageAnswer, UffdError>| #[trigger]
                served(servers@.skip(i as int), addr, out) ==> served(servers@, addr, out),
        decreases servers@.len() - i,
    {
        proof {
            assert(servers@.skip(i as int)[0] == servers@[i as int]);
            assert(servers@.skip(i as int).skip(1) =~= servers@.skip(i + 1));
        }
        match servers[i].region.locate(addr) {
            Ok(_) => {
                let out = servers[i].serve_page(addr);
                proof {
                    assert(served(servers@.skip(i as int), addr, out));
                }
                return out;
            },
            Err(_) => {},
        }
        proof {
            assert forall|out: Result<PageAnswer, UffdError>| #[trigger]
                served(servers@.skip(i + 1), addr, out) implies served(servers@, addr, out) by {
                assert(served(servers@.skip(i as int), addr, out));
            }
        }
        i = i + 1;
    }
    let out = Err(UffdError::OutOfRange { addr, base: 0, end: 0 });
    proof {
        assert(served(servers@.skip(i as int), addr, out));
    }
    out
}

/// A restored guest sees its memory as it was: a fault on a page of the snapshot is answered with
/// the snapshot's bytes, and one past its end with zeros.
pub proof fn law_restored_memory_is_the_snapshot(
    source: MemoryPageSource,
    offset: u64,
    len: nat,
    r: Result<bool, String>,
    page: Seq<u8>,
    i: int,
)
    requires
        source.fills(offset, len, r, page),
        0 <= i < len,
    ensures
        offset + i < source.bytes().len() ==> r == Ok::<bool, String>(true) && page[i]
            == source.bytes()[offset + i],
        offset >= source.bytes().len() ==> r == Ok::<bool, String>(false),
        offset < source.bytes().len() <= offset + i ==> page[i] == 0,
{
}

/// What the guest finds at an address that it touches is what its snapshot has there: the page that it
/// is given holds the address, and at the address the byte of the snapshot that lies as far from the
/// snapshot's beginning as the address lies from the memory's, or zero past the snapshot's end.
pub proof fn law_touched_byte_is_of_the_snapshot(
    server: PageFaultServer<MemoryPageSource>,
    addr: usize,
    out: Result<PageAnswer, UffdError>,
)
    requires
        server.memory().page_size() > 0,
        server.holds(addr),
        server.serves(addr, out),
    ensures
        ({
            let bytes = server.pages().bytes();
            let at_byte = addr - server.memory().start();
            match out {
                Ok(PageAnswer::Copy { at, page }) => {
                    &&& page@.len() == server.memory().page_size()
                    &&& at <= addr < at + page@.len()
                    &&& page@[addr - at] == if at_byte < bytes.len() {
                        bytes[at_byte]
                    } else {
                        0u8
                    }
                },
                Ok(PageAnswer::Zero { at }) => {
                    &&& at <= addr < at + server.memory().page_size()
                    &&& at_byte >= bytes.len()
                },
                Err(_) => false,
            }
        }),
{
    let region = server.memory();
    let page = region.page_size();
    let a = addr as int;
    assert(0 <= a % page < page) by (nonlinear_arith)
        requires
            page > 0,
    ;
}

/// A fault is served by the region that holds its address, whatever other regions there are.
pub proof fn law_fault_goes_to_its_region<S: PageSource>(
    servers: Seq<PageFaultServer<S>>,
    k: int,
    addr: usize,
    out: Result<PageAnswer, UffdError>,
)
    requires
        0 <= k < servers.len(),
        servers[k].holds(addr),
        forall|j: int| 0 <= j < k ==> !(#[trigger] servers[j]).holds(addr),
    ensures
        served(servers, addr, out) == servers[k].serves(addr, out),
    decreases k,
{
    if k > 0 {
        assert(!servers[0].holds(addr));
        let rest = servers.skip(1);
        assert(rest[k - 1] == servers[k]);
        assert forall|j: int| 0 <= j < k - 1 implies !(#[trigger] rest[j]).holds(addr) by {
            assert(rest[j] == servers[j + 1]);
        }
        law_fault_goes_to_its_region(rest, k - 1, addr, out);
    }
}

/// A fault that lies in no region is refused.
pub proof fn law_stray_fault_is_refused<S: PageSource>(
    servers: Seq<PageFaultServer<S>>,
    addr: usize,
    out: Result<PageAnswer, UffdError>,
)
    requires
        forall|j: int| 0 <= j < servers.len() ==> !(#[trigger] servers[j]).holds(addr),
        served(servers, addr, out),
    ensures
        out matches Err(UffdError::OutOfRange { addr: a, .. }) && a == addr,
    decreases servers.len(),
{
    if servers.len() > 0 {
        assert(!servers[0].holds(addr));
        let rest = servers.skip(1);
        assert forall|j: int| 0 <= j < rest.len() implies !(#[trigger] rest[j]).holds(addr) by {
            assert(rest[j] == servers[j + 1]);
        }
        law_stray_fault_is_refused(rest, addr, out);
    }
}

/// A fault outside the memory is told with the memory's bounds, and a page that could not be read with
/// the reason.
pub proof fn law_refusals_say_why<S: PageSource>(
    server: PageFaultServer<S>,
    addr: usize,
    out: Result<PageAnswer, UffdError>,
    at: int,
    why: String,
    page: Seq<u8>,
    failed: Result<PageAnswer, UffdError>,
)
    requires
        !server.holds(addr),
        server.serves(addr, out),
        answers(at, Err(why), page, failed),
    ensures
        out matches Err(UffdError::OutOfRange { addr: a, base, end }) && a == addr && base
            == server.memory().start() && end == server.memory().end(),
        failed matches Err(UffdError::Io(e)) && e == why,
{
}

/// Memory that begins and ends at whole pages is served from its first byte to its last, and nothing
/// beside it is.
pub proof fn law_memory_is_served_exactly<S: PageSource>(
    server: PageFaultServer<S>,
    first: int,
    last: int,
    addr: usize,
)
    requires
        server.memory().page_size() > 0,
        server.memory().start() == first * server.memory().page_size(),
        server.memory().end() == last * server.memory().page_size(),
    ensures
        server.holds(addr) <==> server.memory().start() <= addr < server.memory().end(),
{
    let page = server.memory().page_size();
    let a = addr as int;
    let (q, r) = (a / page, a % page);
    assert(a == page * q + r && 0 <= r < page) by (nonlinear_arith)
        requires
            page > 0,
            q == a / page,
            r == a % page,
    ;
    assert(page_start(a, page) == page * q);
    assert(first * page <= page * q <==> first * page <= a) by (nonlinear_arith)
        requires
            page > 0,
            a == page * q + r,
            0 <= r < page,
    ;
    assert(page * q < last * page <==> a < last * page) by (nonlinear_arith)
        requires
            page > 0,
            a == page * q + r,
            0 <= r < page,
    ;
}

} // verus!
