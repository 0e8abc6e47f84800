//! The two legs of a proxied connection, each a reader and a writer that
//! can be used together or split apart.

use vstd::prelude::*;

verus! {

/// Client-side connection: reads startup + frontend messages, writes backend messages.
pub struct ClientSide<R, W> {
    reader: R,
    writer: W,
}

/// The reading half of a client connection.
pub struct ClientReader<R> {
    reader: R,
}

/// The writing half of a client connection.
pub struct ClientWriter<W> {
    writer: W,
}

/// Server-side (upstream Postgres): writes startup + frontend, reads backend.
pub struct ServerSide<R, W> {
    reader: R,
    writer: W,
}

/// The reading half of an upstream connection.
pub struct ServerReader<R> {
    reader: R,
}

/// The writing half of an upstream connection.
pub struct ServerWriter<W> {
    writer: W,
}

impl<R, W> ClientSide<R, W> {
    /// The reader held.
    pub closed spec fn reader(&self) -> R {
        self.reader
    }

    /// The writer held.
    pub closed spec fn writer(&self) -> W {
        self.writer
    }

    pub fn new(reader: R, writer: W) -> (s: Self)
        ensures
            s.reader() == reader,
            s.writer() == writer,
    {
        Self { reader, writer }
    }

    /// Splits the connection into its reading and writing halves.
    pub fn split(self) -> (halves: (ClientReader<R>, ClientWriter<W>))
        ensures
            halves.0.reader() == self.reader(),
            halves.1.writer() == self.writer(),
    {
        (ClientReader { reader: self.reader }, ClientWriter { writer: self.writer })
    }

    /// The reader, for one read.
    pub fn reader_mut(&mut self) -> (r: &mut R)
        ensures
            *r == old(self).reader(),
            final(self).reader() == *final(r),
            final(self).writer() == old(self).writer(),
    {
        &mut self.reader
    }

    /// The writer, for one write.
    pub fn writer_mut(&mut self) -> (w: &mut W)
        ensures
            *w == old(self).writer(),
            final(self).writer() == *final(w),
            final(self).reader() == old(self).reader(),
    {
        &mut self.writer
    }
}

impl<R> ClientReader<R> {
    /// The reader held.
    pub closed spec fn reader(&self) -> R {
        self.reader
    }

    /// The reader, for one read.
    pub fn reader_mut(&mut self) -> (r: &mut R)
        ensures
            *r == old(self).reader(),
            final(self).reader() == *final(r),
    {
        &mut self.reader
    }
}

impl<W> ClientWriter<W> {
    /// The writer held.
    pub closed spec fn writer(&self) -> W {
        self.writer
    }

    /// The writer, for one write.
    pub fn writer_mut(&mut self) -> (w: &mut W)
        ensures
            *w == old(self).writer(),
            final(self).writer() == *final(w),
    {
        &mut self.writer
    }
}

impl<R, W> ServerSide<R, W> {
    /// The reader held.
    pub closed spec fn reader(&self) -> R {
        self.reader
    }

    /// The writer held.
    pub closed spec fn writer(&self) -> W {
        self.writer
    }

    pub fn new(reader: R, writer: W) -> (s: Self)
        ensures
            s.reader() == reader,
            s.writer() == writer,
    {
        Self { reader, writer }
    }

    /// Splits the connection into its reading and writing halves.
    pub fn split(self) -> (halves: (ServerReader<R>, ServerWriter<W>))
        ensures
            halves.0.reader() == self.reader(),
            halves.1.writer() == self.writer(),
    {
        (ServerReader { reader: self.reader }, ServerWriter { writer: self.writer })
    }

    /// The reader, for one read.
    pub fn reader_mut(&mut self) -> (r: &mut R)
        ensures
            *r == old(self).reader(),
            final(self).reader() == *final(r),
            final(self).writer() == old(self).writer(),
    {
        &mut self.reader
    }

    /// The writer, for one write.
    pub fn writer_mut(&mut self) -> (w: &mut W)
        ensures
            *w == old(self).writer(),
            final(self).writer() == *final(w),
            final(self).reader() == old(self).reader(),
    {
        &mut self.writer
    }
}

impl<R> ServerReader<R> {
    /// The reader held.
    pub closed spec fn reader(&self) -> R {
        self.reader
    }

    /// The reader, for one read.
    pub fn reader_mut(&mut self) -> (r: &mut R)
        ensures
            *r == old(self).reader(),
            final(self).reader() == *final(r),
    {
        &mut self.reader
    }
}

impl<W> ServerWriter<W> {
    /// The writer held.
    pub closed spec fn writer(&self) -> W {
        self.writer
    }

    /// The writer, for one write.
    pub fn writer_mut(&mut self) -> (w: &mut W)
        ensures
            *w == old(self).writer(),
            final(self).writer() == *final(w),
    {
        &mut self.writer
    }
}

/// The client leg after startup completes.
pub type FrontendStream<R, W> = ClientSide<R, W>;

/// The upstream leg after startup completes.
pub type BackendStream<R, W> = ServerSide<R, W>;

} // verus!
